//! A data-driven effect interpreter for a card quiz game.
//!
//! Effects are trees of operations authored as data. The executor walks such a
//! tree against a path-addressed game state, a table of named collections and
//! a per-run variable scope.

pub mod decimal;
pub mod text;
pub mod assoc;
pub mod value;
pub mod error;
pub mod effect;
pub mod collections;
pub mod components;
pub mod resources;
pub mod game_state;
pub mod semantics;
pub mod effect_executor;
pub mod chat;
pub mod cards;
pub mod laws;
pub mod twitch;
pub mod chat_plugin;
pub mod systems;
pub mod constants;
pub mod card_3d;

pub use chat::{ChatCommand, ChatMessage};
pub use collections::{Collection, CollectionManager};
pub use components::{CardType, Question, QuestionOption};
pub use decimal::Decimal;
pub use effect::{CardEffect, EffectContext, EffectOperation, EffectTiming, Predicate};
pub use effect_executor::EffectExecutor;
pub use error::{EffectError, EffectResult};
pub use game_state::GameState;
pub use resources::{CardManager, GameTimer, QuizState, Score, Timer, World};
pub use value::Value;
