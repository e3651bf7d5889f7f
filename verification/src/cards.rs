//! Sets of cards and questions as content files hold them.

use crate::components::{CardType, Question};
use crate::effect::CardEffect as GenericCardEffect;
use crate::resources::{CardDefinition, CardEffectDefinition};
use crate::value::Value;
use vstd::prelude::*;
use vstd::string::*;

verus! {

/// What a set of cards says of itself.
#[derive(Debug, Clone)]
pub struct CardMetadata {
    pub title: String,
    pub description: String,
    pub version: String,
}

/// A component operation that an effect intercepts.
#[derive(Debug, Clone)]
pub struct InterceptPattern {
    pub component: String,
    pub operation: String,
}

/// How a card looks and sounds.
#[derive(Debug, Clone)]
pub struct CardVisual {
    pub image: Option<String>,
    pub sound: Option<String>,
}

impl Default for CardVisual {
    fn default() -> (r: CardVisual)
        ensures
            r.image is None,
            r.sound is None,
    {
        CardVisual { image: None, sound: None }
    }
}

/// An effect of a card, with parameters by its type.
#[derive(Debug, Clone)]
pub struct CardEffect {
    pub id: String,
    pub effect_type: String,
    pub parameters: Value,
    pub intercepts: Vec<InterceptPattern>,
    pub timing: String,
    pub priority: i32,
}

/// A card as a content file holds it.
#[derive(Debug, Clone)]
pub struct Card {
    pub id: String,
    pub name: String,
    pub card_type: CardType,
    pub permanence: String,
    pub vote_requirement: usize,
    pub cost: i32,
    pub description: Option<String>,
    pub tags: Vec<String>,
    pub effects: Vec<CardEffect>,
    pub visual: CardVisual,
}

/// A set of cards.
#[derive(Debug, Clone)]
pub struct CardSet {
    pub metadata: CardMetadata,
    pub cards: Vec<Card>,
}

/// What a set of questions says of itself.
#[derive(Debug, Clone)]
pub struct QuestionMetadata {
    pub title: Option<String>,
    pub description: Option<String>,
}

/// A set of questions.
#[derive(Debug, Clone)]
pub struct QuestionSet {
    pub metadata: Option<QuestionMetadata>,
    pub questions: Vec<Question>,
}

/// A card whose effects are lists of operations.
#[derive(Debug, Clone)]
pub struct GenericCard {
    pub id: String,
    pub name: String,
    pub card_type: CardType,
    pub permanence: String,
    pub vote_requirement: usize,
    pub cost: i32,
    pub description: Option<String>,
    pub tags: Vec<String>,
    pub effects: Vec<GenericCardEffect>,
    pub visual: CardVisual,
}

/// A set of cards whose effects are lists of operations.
#[derive(Debug, Clone)]
pub struct GenericCardSet {
    pub metadata: CardMetadata,
    pub cards: Vec<GenericCard>,
}

/// The path of a card's image below the directory of card images.
pub open spec fn image_path_of(image: Option<String>) -> Option<Seq<char>> {
    match image {
        Some(name) => Some("cards/"@ + name@),
        None => None,
    }
}

/// The card as the game keeps it: its effects keep their type, priority and
/// parameters, and its image gets its path.
pub fn card_to_definition(card: Card) -> (r: CardDefinition)
    ensures
        r.id == card.id,
        r.name == card.name,
        r.card_type == card.card_type,
        r.description == card.description,
        r.cost == card.cost,
        r.vote_requirement == card.vote_requirement,
        r.effects.len() == card.effects.len(),
        forall|i: int|
            0 <= i < r.effects.len() ==> {
                &&& (#[trigger] r.effects[i]).effect_type == card.effects[i].effect_type
                &&& r.effects[i].priority == card.effects[i].priority
                &&& r.effects[i].parameters == card.effects[i].parameters
            },
        match image_path_of(card.visual.image) {
            Some(path) => r.image_path matches Some(p) && p@ == path,
            None => r.image_path is None,
        },
{
    let Card { id, name, card_type, permanence, vote_requirement, cost, description, tags, effects, visual } =
        card;
    let mut definitions: Vec<CardEffectDefinition> = Vec::new();
    let ghost all = effects@;
    let total: usize = effects.len();
    let mut i: usize = 0;
    for effect in it: effects
        invariant
            it.seq() == all,
            i == it.index(),
            all.len() == total,
            definitions.len() == i,
            forall|j: int|
                0 <= j < i ==> {
                    &&& (#[trigger] definitions[j]).effect_type == all[j].effect_type
                    &&& definitions[j].priority == all[j].priority
                    &&& definitions[j].parameters == all[j].parameters
                },
    {
        definitions.push(
            CardEffectDefinition {
                effect_type: effect.effect_type,
                priority: effect.priority,
                parameters: effect.parameters,
            },
        );
        i += 1;
    }
    let image_path: Option<String> = match visual.image {
        Some(image) => Some(String::from_str("cards/").concat(image.as_str())),
        None => None,
    };
    CardDefinition {
        id,
        name,
        card_type,
        description,
        cost,
        vote_requirement,
        effects: definitions,
        image_path,
    }
}

} // verus!
