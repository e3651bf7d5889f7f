//! The host's state that effects read and write.

use crate::collections::CollectionManager;
use crate::components::CardType;
use crate::value::{Value, ValueView};
use vstd::prelude::*;

verus! {

/// Nanoseconds in one second.
pub const NANOS_PER_SECOND: u64 = 1_000_000_000;

/// A countdown: how long it runs in all and how long it has run, both in
/// nanoseconds.
#[derive(Clone, Copy, Debug, PartialEq, Eq, Structural)]
pub struct Timer {
    pub duration: u64,
    pub elapsed: u64,
    pub paused: bool,
}

/// The product of whole seconds and the nanoseconds in one, or the greatest
/// `u64` if the product is greater.
pub open spec fn seconds_to_nanos(seconds: nat) -> nat {
    if seconds * 1_000_000_000 > u64::MAX {
        u64::MAX as nat
    } else {
        seconds * 1_000_000_000
    }
}

/// The sum of two spans of time, or the greatest `u64` if the sum is greater.
pub open spec fn nanos_sum(a: nat, b: nat) -> nat {
    if a + b > u64::MAX {
        u64::MAX as nat
    } else {
        a + b
    }
}

impl Timer {
    /// The time that is left, in nanoseconds: none once the timer has run
    /// for its duration.
    pub open spec fn remaining_nanos(self) -> nat {
        if self.duration >= self.elapsed {
            (self.duration - self.elapsed) as nat
        } else {
            0
        }
    }

    /// The whole seconds that are left.
    pub open spec fn remaining_seconds(self) -> nat {
        self.remaining_nanos() / 1_000_000_000
    }

    /// The whole seconds that have passed.
    pub open spec fn elapsed_seconds(self) -> nat {
        self.elapsed as nat / 1_000_000_000
    }

    /// The share of the duration that is left, in millionths of a percent;
    /// none for a timer without duration.
    pub open spec fn percent_remaining_micros(self) -> int {
        if self.duration > 0 {
            (self.remaining_nanos() as int * 100_000_000) / (self.duration as int)
        } else {
            0
        }
    }

    /// The timer after `delta` nanoseconds have passed: a paused timer, or
    /// one that has run for its duration, stays as it is; another runs on,
    /// up to its duration.
    pub open spec fn ticked(self, delta: nat) -> Timer {
        if self.paused || self.elapsed >= self.duration {
            self
        } else if self.elapsed + delta >= self.duration {
            Timer { elapsed: self.duration, ..self }
        } else {
            Timer { elapsed: (self.elapsed + delta) as u64, ..self }
        }
    }

    /// A timer that runs for `seconds`, has not run yet and is not paused.
    pub fn from_seconds(seconds: u64) -> (r: Timer)
        ensures
            r == (Timer {
                duration: seconds_to_nanos(seconds as nat) as u64,
                elapsed: 0,
                paused: false,
            }),
    {
        let duration: u64 = if seconds > u64::MAX / NANOS_PER_SECOND {
            u64::MAX
        } else {
            seconds * NANOS_PER_SECOND
        };
        Timer { duration, elapsed: 0, paused: false }
    }

    /// Lets `delta` nanoseconds pass, unless the timer is paused. A timer
    /// does not run beyond its duration.
    pub fn tick(&mut self, delta: u64)
        ensures
            *final(self) == old(self).ticked(delta as nat),
    {
        if !self.paused && self.elapsed < self.duration {
            if delta >= self.duration - self.elapsed {
                self.elapsed = self.duration;
            } else {
                self.elapsed = self.elapsed + delta;
            }
        }
    }

    /// The time that is left, in nanoseconds.
    pub fn remaining(&self) -> (r: u64)
        ensures
            r == self.remaining_nanos(),
    {
        if self.duration >= self.elapsed {
            self.duration - self.elapsed
        } else {
            0
        }
    }

    /// The share of the duration that is left, in millionths of a percent.
    pub fn percent_remaining(&self) -> (r: i64)
        ensures
            r == self.percent_remaining_micros(),
            0 <= r <= 100_000_000,
    {
        if self.duration > 0 {
            let left: u128 = self.remaining() as u128;
            let total: u128 = self.duration as u128;
            let share: u128 = left * 100_000_000 / total;
            proof {
                let l = left as int;
                let t = total as int;
                assert(0 <= (l * 100_000_000) / t <= 100_000_000) by (nonlinear_arith)
                    requires
                        0 <= l <= t,
                        t > 0,
                ;
            }
            share as i64
        } else {
            0
        }
    }

    /// The same timer with its duration such that `seconds` are left, on top
    /// of what has passed.
    pub fn with_remaining_seconds(self, seconds: u64) -> (r: Timer)
        ensures
            r == (Timer {
                duration: nanos_sum(seconds_to_nanos(seconds as nat), self.elapsed as nat) as u64,
                ..self
            }),
    {
        let span: u64 = if seconds > u64::MAX / NANOS_PER_SECOND {
            u64::MAX
        } else {
            seconds * NANOS_PER_SECOND
        };
        let duration: u64 = if span > u64::MAX - self.elapsed {
            u64::MAX
        } else {
            span + self.elapsed
        };
        Timer { duration, elapsed: self.elapsed, paused: self.paused }
    }
}

/// The timer of a game, with the flag that effects pause it by.
#[derive(Clone, Copy, Debug, PartialEq, Eq, Structural)]
pub struct GameTimer {
    pub timer: Timer,
    pub paused: bool,
}

impl Default for GameTimer {
    fn default() -> (r: GameTimer)
        ensures
            r == (GameTimer {
                timer: Timer { duration: 600_000_000_000, elapsed: 0, paused: false },
                paused: false,
            }),
    {
        GameTimer { timer: Timer::from_seconds(600), paused: false }
    }
}

/// The score of a game.
#[derive(Clone, Copy, Debug, PartialEq, Eq, Structural)]
pub struct Score {
    pub current: i32,
    pub passing_grade: i32,
    pub correct_answers: usize,
    pub total_answered: usize,
}

impl Default for Score {
    fn default() -> (r: Score)
        ensures
            r == (Score { current: 0, passing_grade: 6, correct_answers: 0, total_answered: 0 }),
    {
        Score { current: 0, passing_grade: 6, correct_answers: 0, total_answered: 0 }
    }
}

/// Where a quiz stands.
#[derive(Clone, Copy, Debug, PartialEq, Eq, Structural)]
pub struct QuizState {
    pub current_question_index: usize,
    pub total_questions: usize,
    pub game_started: bool,
    pub game_complete: bool,
    pub paused: bool,
}

impl Default for QuizState {
    fn default() -> (r: QuizState)
        ensures
            r == (QuizState {
                current_question_index: 0,
                total_questions: 0,
                game_started: false,
                game_complete: false,
                paused: false,
            }),
    {
        QuizState {
            current_question_index: 0,
            total_questions: 0,
            game_started: false,
            game_complete: false,
            paused: false,
        }
    }
}

/// One effect of a card as the game keeps it.
#[derive(Clone, Debug)]
pub struct CardEffectDefinition {
    pub effect_type: String,
    pub priority: i32,
    pub parameters: Value,
}

/// A card as the game keeps it.
#[derive(Clone, Debug)]
pub struct CardDefinition {
    pub id: String,
    pub name: String,
    pub card_type: CardType,
    pub description: Option<String>,
    pub cost: i32,
    pub vote_requirement: usize,
    pub effects: Vec<CardEffectDefinition>,
    pub image_path: Option<String>,
}

/// The cards of a game: those that can be had and those in play.
#[derive(Clone, Debug)]
pub struct CardManager {
    pub available_cards: Vec<CardDefinition>,
    pub deployed_card_ids: Vec<String>,
}

impl Default for CardManager {
    fn default() -> (r: CardManager)
        ensures
            r.available_cards.len() == 0,
            r.deployed_card_ids.len() == 0,
    {
        CardManager { available_cards: Vec::new(), deployed_card_ids: Vec::new() }
    }
}

/// The host's store of resources: each is there or not.
#[derive(Clone, Debug)]
pub struct World {
    pub timer: Option<GameTimer>,
    pub score: Option<Score>,
    pub cards: Option<CardManager>,
    pub collections: Option<CollectionManager>,
}

/// The mathematical content of a [`World`].
pub struct WorldView {
    pub timer: Option<GameTimer>,
    pub score: Option<Score>,
    pub cards: Option<CardManager>,
    pub collections: Option<Map<Seq<char>, Seq<ValueView>>>,
}

impl View for World {
    type V = WorldView;

    open spec fn view(&self) -> WorldView {
        WorldView {
            timer: self.timer,
            score: self.score,
            cards: self.cards,
            collections: match self.collections {
                Some(c) => Some(c@),
                None => None,
            },
        }
    }
}

impl World {
    /// A store without resources.
    pub fn new() -> (r: World)
        ensures
            r@ == (WorldView { timer: None, score: None, cards: None, collections: None }),
    {
        World { timer: None, score: None, cards: None, collections: None }
    }
}

} // verus!
