//! Questions and cards as the game holds them.

use crate::decimal::Decimal;
use crate::text::{lowercase_text, lowercased, str_eq};
use vstd::prelude::*;

verus! {

/// One of the answers that a question offers.
#[derive(Clone, Debug)]
pub struct QuestionOption {
    pub id: String,
    pub text: String,
    pub correct: bool,
}

/// A question of the quiz.
#[derive(Clone, Debug)]
pub struct Question {
    pub id: String,
    pub text: String,
    pub options: Vec<QuestionOption>,
    pub points: i32,
    pub explanation: Option<String>,
    pub source: Option<String>,
    pub tags: Vec<String>,
    pub question_index: usize,
}

/// Whether the option at position `i` is the first correct one.
pub open spec fn first_correct(options: Seq<QuestionOption>, i: int) -> bool {
    &&& 0 <= i < options.len()
    &&& options[i].correct
    &&& forall|j: int| 0 <= j < i ==> !options[j].correct
}

/// Whether some correct option has the identifier `id`.
pub open spec fn correct_id(options: Seq<QuestionOption>, id: Seq<char>) -> bool {
    exists|i: int| 0 <= i < options.len() && options[i].id@ == id && options[i].correct
}

impl Question {
    /// The first correct option, if there is one.
    pub fn correct_answer(&self) -> (r: Option<&QuestionOption>)
        ensures
            match r {
                Some(option) => exists|i: int|
                    first_correct(self.options@, i) && *option == self.options[i],
                None => forall|i: int| 0 <= i < self.options.len() ==> !self.options[i].correct,
            },
    {
        let mut i: usize = 0;
        while i < self.options.len()
            invariant
                i <= self.options.len(),
                forall|j: int| 0 <= j < i ==> !self.options[j].correct,
            decreases self.options.len() - i,
        {
            if self.options[i].correct {
                proof {
                    assert(first_correct(self.options@, i as int));
                }
                return Some(&self.options[i]);
            }
            i += 1;
        }
        None
    }

    /// Whether a correct option has exactly the identifier `id`.
    pub fn has_correct_id(&self, id: &str) -> (r: bool)
        ensures
            r == correct_id(self.options@, id@),
    {
        let mut i: usize = 0;
        while i < self.options.len()
            invariant
                i <= self.options.len(),
                forall|j: int|
                    0 <= j < i ==> !(self.options[j].id@ == id@ && self.options[j].correct),
            decreases self.options.len() - i,
        {
            if self.options[i].correct && str_eq(self.options[i].id.as_str(), id) {
                return true;
            }
            i += 1;
        }
        false
    }

    /// Whether `answer`, in lower case, is the identifier of a correct
    /// option.
    pub fn is_correct(&self, answer: &str) -> (r: bool)
        ensures
            r == correct_id(self.options@, lowercased(answer@)),
    {
        let lowered = lowercase_text(answer);
        self.has_correct_id(lowered.as_str())
    }
}

/// Marks the question that is being asked.
#[derive(Clone, Copy, Debug)]
pub struct ActiveQuestion;

/// The families of cards.
#[derive(Clone, Copy, Debug, PartialEq, Eq, Structural)]
pub enum CardType {
    Resistance,
    Palestinian,
    Politics,
    Negative,
}

/// A card that is in play.
#[derive(Clone, Debug)]
pub struct DeployedCard {
    pub card_id: String,
    pub name: String,
    pub card_type: CardType,
}

/// Takes wrong answers away from the question.
#[derive(Clone, Copy, Debug)]
pub struct EliminateWrongAnswers {
    pub count: usize,
    pub priority: i32,
}

/// Adds seconds to the timer, or takes them from it.
#[derive(Clone, Copy, Debug)]
pub struct ModifyTime {
    pub seconds: i64,
    pub priority: i32,
}

/// Adds points to a correct answer.
#[derive(Clone, Copy, Debug)]
pub struct ModifyPoints {
    pub points: i32,
    pub priority: i32,
}

/// Multiplies the points of a correct answer.
#[derive(Clone, Copy, Debug)]
pub struct MultiplyPoints {
    pub multiplier: Decimal,
    pub priority: i32,
}

/// The answer that a player gave.
#[derive(Clone, Debug)]
pub struct PlayerAnswer {
    pub player_id: String,
    pub username: String,
    pub answer: String,
}

} // verus!
