//! Paths into the game state.
//!
//! A path is a dotted text. A closed set of paths names fields of the host's
//! resources; `var.<name>` names a variable that the game state keeps itself.

use crate::assoc::{find_binding, put_binding};
use crate::decimal::{scaled_int, times_micros, whole_part, Decimal};
use crate::resources::{nanos_sum, seconds_to_nanos, GameTimer, Score, Timer, World, WorldView};
use crate::text::{chars_of, find_char, index_of_from, str_eq};
use crate::value::{lemma_entries_bound, lemma_table_insert, table_view, Value, ValueView};
use vstd::prelude::*;
use vstd::string::*;

verus! {

/// The most cards that can be in play.
pub const MAX_CARD_SLOTS: i32 = 10;

/// The sum or difference `x` of two `i32`, as two's complement arithmetic
/// gives it.
pub open spec fn wrap_i32(x: int) -> int {
    if x > i32::MAX {
        x - 0x1_0000_0000
    } else if x < i32::MIN {
        x + 0x1_0000_0000
    } else {
        x
    }
}

/// A count as an `i32`, by its low 32 bits.
pub open spec fn low_bits(count: nat) -> int {
    (count as u64) as i32 as int
}

/// A value as an integer: a decimal loses its fraction.
pub open spec fn int_of(v: ValueView) -> Option<int> {
    match v {
        ValueView::Int(i) => Some(i),
        ValueView::Float(m) => Some(whole_part(m)),
        _ => None,
    }
}

/// A value as a truth value.
pub open spec fn bool_of(v: ValueView) -> Option<bool> {
    match v {
        ValueView::Bool(b) => Some(b),
        _ => None,
    }
}

/// The name in a path of the form `var.<name>`, where the name holds no dot.
pub open spec fn var_name(path: Seq<char>) -> Option<Seq<char>> {
    if path.len() >= 4 && path.take(4) == "var."@ && index_of_from(path, '.', 4) >= path.len() {
        Some(path.skip(4))
    } else {
        None
    }
}

/// The timer with `seconds` left, or none if `seconds` is negative.
pub open spec fn timer_with_remaining(gt: GameTimer, seconds: int) -> GameTimer {
    let left: nat = if seconds > 0 {
        seconds as nat
    } else {
        0
    };
    GameTimer {
        timer: Timer {
            duration: nanos_sum(seconds_to_nanos(left), gt.timer.elapsed as nat) as u64,
            ..gt.timer
        },
        ..gt
    }
}

/// The timer paused or running, by `paused`.
pub open spec fn timer_with_paused(gt: GameTimer, paused: bool) -> GameTimer {
    GameTimer { timer: Timer { paused, ..gt.timer }, paused }
}

/// What a path reads: nothing where the path is unknown or its resource is
/// missing.
pub open spec fn state_get(vars: Map<Seq<char>, ValueView>, world: WorldView, path: Seq<char>) -> Option<
    ValueView,
> {
    if path == "timer.remaining"@ {
        match world.timer {
            Some(gt) => Some(ValueView::Int(low_bits(gt.timer.remaining_seconds()))),
            None => None,
        }
    } else if path == "timer.elapsed"@ {
        match world.timer {
            Some(gt) => Some(ValueView::Int(low_bits(gt.timer.elapsed_seconds()))),
            None => None,
        }
    } else if path == "timer.percent_remaining"@ {
        match world.timer {
            Some(gt) => Some(ValueView::Float(gt.timer.percent_remaining_micros())),
            None => None,
        }
    } else if path == "timer.paused"@ {
        match world.timer {
            Some(gt) => Some(ValueView::Bool(gt.paused)),
            None => None,
        }
    } else if path == "score.current"@ {
        match world.score {
            Some(score) => Some(ValueView::Int(score.current as int)),
            None => None,
        }
    } else if path == "score.passing_grade"@ {
        match world.score {
            Some(score) => Some(ValueView::Int(score.passing_grade as int)),
            None => None,
        }
    } else if path == "question.points"@ {
        None
    } else if path == "cards.slots.max"@ {
        Some(ValueView::Int(MAX_CARD_SLOTS as int))
    } else if path == "cards.slots.occupied"@ {
        match world.cards {
            Some(cards) => Some(ValueView::Int(low_bits(cards.deployed_card_ids.len() as nat))),
            None => None,
        }
    } else {
        match var_name(path) {
            Some(name) => if vars.contains_key(name) {
                Some(vars[name])
            } else {
                None
            },
            None => None,
        }
    }
}

/// What writing a value at a path makes of the variables and the world:
/// nothing where the path cannot be written, its resource is missing or the
/// value is of the wrong kind.
pub open spec fn state_set(
    vars: Map<Seq<char>, ValueView>,
    world: WorldView,
    path: Seq<char>,
    value: ValueView,
) -> Option<(Map<Seq<char>, ValueView>, WorldView)> {
    if path == "timer.remaining"@ {
        match (int_of(value), world.timer) {
            (Some(seconds), Some(gt)) => Some(
                (vars, WorldView { timer: Some(timer_with_remaining(gt, seconds)), ..world }),
            ),
            _ => None,
        }
    } else if path == "timer.paused"@ {
        match (bool_of(value), world.timer) {
            (Some(paused), Some(gt)) => Some(
                (vars, WorldView { timer: Some(timer_with_paused(gt, paused)), ..world }),
            ),
            _ => None,
        }
    } else if path == "score.current"@ {
        match (int_of(value), world.score) {
            (Some(amount), Some(score)) => Some(
                (
                    vars,
                    WorldView { score: Some(Score { current: amount as i32, ..score }), ..world },
                ),
            ),
            _ => None,
        }
    } else if path == "score.passing_grade"@ {
        match (int_of(value), world.score) {
            (Some(amount), Some(score)) => Some(
                (
                    vars,
                    WorldView {
                        score: Some(Score { passing_grade: amount as i32, ..score }),
                        ..world
                    },
                ),
            ),
            _ => None,
        }
    } else if path == "timer.elapsed"@ || path == "timer.percent_remaining"@ || path
        == "question.points"@ || path == "cards.slots.max"@ || path == "cards.slots.occupied"@ {
        None
    } else {
        match var_name(path) {
            Some(name) => Some((vars.insert(name, value), world)),
            None => None,
        }
    }
}

/// What adding an amount at a path makes of the variables and the world: the
/// value there, as an integer, is replaced by the sum.
pub open spec fn state_add(
    vars: Map<Seq<char>, ValueView>,
    world: WorldView,
    path: Seq<char>,
    amount: int,
) -> Option<(Map<Seq<char>, ValueView>, WorldView)> {
    match state_get(vars, world, path) {
        Some(current) => match int_of(current) {
            Some(v) => state_set(vars, world, path, ValueView::Int(wrap_i32(v + amount))),
            None => None,
        },
        None => None,
    }
}

/// What subtracting an amount at a path makes of the variables and the
/// world: what adding its negative does.
pub open spec fn state_subtract(
    vars: Map<Seq<char>, ValueView>,
    world: WorldView,
    path: Seq<char>,
    amount: int,
) -> Option<(Map<Seq<char>, ValueView>, WorldView)> {
    state_add(vars, world, path, wrap_i32(-amount))
}

/// What multiplying by a factor, in millionths, at a path makes of the
/// variables and the world: an integer stays an integer, a decimal a decimal.
pub open spec fn state_multiply(
    vars: Map<Seq<char>, ValueView>,
    world: WorldView,
    path: Seq<char>,
    factor: int,
) -> Option<(Map<Seq<char>, ValueView>, WorldView)> {
    match state_get(vars, world, path) {
        Some(ValueView::Int(v)) => state_set(
            vars,
            world,
            path,
            ValueView::Int(scaled_int(v, factor)),
        ),
        Some(ValueView::Float(m)) => state_set(
            vars,
            world,
            path,
            ValueView::Float(times_micros(m, factor)),
        ),
        _ => None,
    }
}

/// What inverting the flag at a path makes of the variables and the world.
pub open spec fn state_toggle(
    vars: Map<Seq<char>, ValueView>,
    world: WorldView,
    path: Seq<char>,
) -> Option<(Map<Seq<char>, ValueView>, WorldView)> {
    match state_get(vars, world, path) {
        Some(current) => match bool_of(current) {
            Some(b) => state_set(vars, world, path, ValueView::Bool(!b)),
            None => None,
        },
        None => None,
    }
}

/// Whether `path` is one of the paths into the host's resources.
pub open spec fn is_fixed_path(path: Seq<char>) -> bool {
    ||| path == "timer.remaining"@
    ||| path == "timer.elapsed"@
    ||| path == "timer.percent_remaining"@
    ||| path == "timer.paused"@
    ||| path == "score.current"@
    ||| path == "score.passing_grade"@
    ||| path == "question.points"@
    ||| path == "cards.slots.max"@
    ||| path == "cards.slots.occupied"@
}

proof fn lemma_fixed_paths_differ()
    ensures
        "timer.remaining"@.len() == 15 && "timer.remaining"@[0] == 't',
        "timer.elapsed"@.len() == 13 && "timer.elapsed"@[0] == 't',
        "timer.percent_remaining"@.len() == 23,
        "timer.paused"@.len() == 12,
        "score.current"@.len() == 13 && "score.current"@[0] == 's',
        "score.passing_grade"@.len() == 19,
        "question.points"@.len() == 15 && "question.points"@[0] == 'q',
        "cards.slots.max"@.len() == 15 && "cards.slots.max"@[0] == 'c',
        "cards.slots.occupied"@.len() == 20,
        "timer.percent_remaining"@[0] == 't',
        "timer.paused"@[0] == 't',
        "score.passing_grade"@[0] == 's',
        "cards.slots.occupied"@[0] == 'c',
        "var."@.len() == 4 && "var."@[0] == 'v',
{
    reveal_strlit("timer.remaining");
    reveal_strlit("timer.elapsed");
    reveal_strlit("timer.percent_remaining");
    reveal_strlit("timer.paused");
    reveal_strlit("score.current");
    reveal_strlit("score.passing_grade");
    reveal_strlit("question.points");
    reveal_strlit("cards.slots.max");
    reveal_strlit("cards.slots.occupied");
    reveal_strlit("var.");
}

/// What each of the paths into the host's resources reads.
pub proof fn lemma_fixed_paths_read(vars: Map<Seq<char>, ValueView>, world: WorldView)
    ensures
        state_get(vars, world, "timer.remaining"@) == match world.timer {
            Some(gt) => Some(ValueView::Int(low_bits(gt.timer.remaining_seconds()))),
            None => None,
        },
        state_get(vars, world, "timer.elapsed"@) == match world.timer {
            Some(gt) => Some(ValueView::Int(low_bits(gt.timer.elapsed_seconds()))),
            None => None,
        },
        state_get(vars, world, "timer.percent_remaining"@) == match world.timer {
            Some(gt) => Some(ValueView::Float(gt.timer.percent_remaining_micros())),
            None => None,
        },
        state_get(vars, world, "timer.paused"@) == match world.timer {
            Some(gt) => Some(ValueView::Bool(gt.paused)),
            None => None,
        },
        state_get(vars, world, "score.current"@) == match world.score {
            Some(score) => Some(ValueView::Int(score.current as int)),
            None => None,
        },
        state_get(vars, world, "score.passing_grade"@) == match world.score {
            Some(score) => Some(ValueView::Int(score.passing_grade as int)),
            None => None,
        },
        state_get(vars, world, "question.points"@) == None::<ValueView>,
        state_get(vars, world, "cards.slots.max"@) == Some(ValueView::Int(10)),
        state_get(vars, world, "cards.slots.occupied"@) == match world.cards {
            Some(cards) => Some(ValueView::Int(low_bits(cards.deployed_card_ids.len() as nat))),
            None => None,
        },
{
    lemma_fixed_paths_differ();
}

/// What a write at each of the paths into the host's resources does: the
/// seconds left, the pause flag and the two scores can be written, with a
/// value of their kind; the other paths cannot.
pub proof fn lemma_fixed_paths_write(
    vars: Map<Seq<char>, ValueView>,
    world: WorldView,
    value: ValueView,
)
    ensures
        state_set(vars, world, "timer.remaining"@, value) == match (int_of(value), world.timer) {
            (Some(seconds), Some(gt)) => Some(
                (vars, WorldView { timer: Some(timer_with_remaining(gt, seconds)), ..world }),
            ),
            _ => None,
        },
        state_set(vars, world, "timer.paused"@, value) == match (bool_of(value), world.timer) {
            (Some(paused), Some(gt)) => Some(
                (vars, WorldView { timer: Some(timer_with_paused(gt, paused)), ..world }),
            ),
            _ => None,
        },
        state_set(vars, world, "score.current"@, value) == match (int_of(value), world.score) {
            (Some(amount), Some(score)) => Some(
                (
                    vars,
                    WorldView { score: Some(Score { current: amount as i32, ..score }), ..world },
                ),
            ),
            _ => None,
        },
        state_set(vars, world, "score.passing_grade"@, value) == match (
            int_of(value),
            world.score,
        ) {
            (Some(amount), Some(score)) => Some(
                (
                    vars,
                    WorldView {
                        score: Some(Score { passing_grade: amount as i32, ..score }),
                        ..world
                    },
                ),
            ),
            _ => None,
        },
        state_set(vars, world, "timer.elapsed"@, value) is None,
        state_set(vars, world, "timer.percent_remaining"@, value) is None,
        state_set(vars, world, "question.points"@, value) is None,
        state_set(vars, world, "cards.slots.max"@, value) is None,
        state_set(vars, world, "cards.slots.occupied"@, value) is None,
{
    lemma_fixed_paths_differ();
}

/// A path of the form `var.<name>`, where the name holds no dot, is none of
/// the paths into the host's resources: it reads and writes the variable of
/// that name.
pub proof fn lemma_variable_path(
    vars: Map<Seq<char>, ValueView>,
    world: WorldView,
    name: Seq<char>,
    value: ValueView,
)
    requires
        !name.contains('.'),
    ensures
        !is_fixed_path("var."@ + name),
        var_name("var."@ + name) == Some(name),
        state_get(vars, world, "var."@ + name) == if vars.contains_key(name) {
            Some(vars[name])
        } else {
            None
        },
        state_set(vars, world, "var."@ + name, value) == Some((vars.insert(name, value), world)),
{
    lemma_fixed_paths_differ();
    let path = "var."@ + name;
    assert(path[0] == 'v');
    assert(path.take(4) =~= "var."@);
    assert(path.skip(4) =~= name);
    crate::text::lemma_index_of_from_end(path, '.', 4);
}

/// Whether a write happened as `expected` says: done with that result, or
/// refused with nothing changed.
pub open spec fn written(
    expected: Option<(Map<Seq<char>, ValueView>, WorldView)>,
    done: bool,
    vars_before: Map<Seq<char>, ValueView>,
    world_before: WorldView,
    vars_after: Map<Seq<char>, ValueView>,
    world_after: WorldView,
) -> bool {
    match expected {
        Some((vars, world)) => done && vars_after == vars && world_after == world,
        None => !done && vars_after == vars_before && world_after == world_before,
    }
}

/// The variables of the game state, and the paths into the host's resources.
#[derive(Debug, Clone)]
pub struct GameState {
    pub variables: Vec<(String, Value)>,
}

impl View for GameState {
    type V = Map<Seq<char>, ValueView>;

    open spec fn view(&self) -> Map<Seq<char>, ValueView> {
        table_view(self.variables@)
    }
}

impl Default for GameState {
    fn default() -> (r: GameState)
        ensures
            r@ == Map::<Seq<char>, ValueView>::empty(),
    {
        GameState { variables: Vec::new() }
    }
}

fn seconds_as_i32(nanos: u64) -> (r: i32)
    ensures
        r == low_bits(nanos as nat / 1_000_000_000),
{
    let seconds: u64 = nanos / 1_000_000_000;
    #[verifier::truncate]
    (seconds as i32)
}

/// A count as an `i32`, by its low 32 bits.
pub fn count_as_i32(count: usize) -> (r: i32)
    ensures
        r == low_bits(count as nat),
{
    let wide: u64 = count as u64;
    #[verifier::truncate]
    (wide as i32)
}

impl GameState {
    /// A game state without variables.
    pub fn new() -> (r: GameState)
        ensures
            r@ == Map::<Seq<char>, ValueView>::empty(),
    {
        GameState { variables: Vec::new() }
    }

    /// The name of the variable that `path` addresses, if it addresses one.
    fn variable_of<'a>(path: &'a str) -> (r: Option<&'a str>)
        ensures
            match var_name(path@) {
                Some(name) => r matches Some(n) && n@ == name,
                None => r is None,
            },
    {
        let chars = chars_of(path);
        if chars.len() >= 4 && str_eq(path.substring_char(0, 4), "var.") && find_char(
            &chars,
            '.',
            4,
        ) == chars.len() {
            Some(path.substring_char(4, chars.len()))
        } else {
            None
        }
    }

    /// The value at `path`.
    pub fn get(&self, path: &str, world: &World) -> (r: Option<Value>)
        ensures
            match state_get(self@, world@, path@) {
                Some(v) => r matches Some(x) && x@ == v,
                None => r is None,
            },
    {
        if str_eq(path, "timer.remaining") {
            match world.timer {
                Some(gt) => Some(Value::Int(seconds_as_i32(gt.timer.remaining()))),
                None => None,
            }
        } else if str_eq(path, "timer.elapsed") {
            match world.timer {
                Some(gt) => Some(Value::Int(seconds_as_i32(gt.timer.elapsed))),
                None => None,
            }
        } else if str_eq(path, "timer.percent_remaining") {
            match world.timer {
                Some(gt) => Some(
                    Value::Float(Decimal::from_micros(gt.timer.percent_remaining())),
                ),
                None => None,
            }
        } else if str_eq(path, "timer.paused") {
            match world.timer {
                Some(gt) => Some(Value::Bool(gt.paused)),
                None => None,
            }
        } else if str_eq(path, "score.current") {
            match world.score {
                Some(score) => Some(Value::Int(score.current)),
                None => None,
            }
        } else if str_eq(path, "score.passing_grade") {
            match world.score {
                Some(score) => Some(Value::Int(score.passing_grade)),
                None => None,
            }
        } else if str_eq(path, "question.points") {
            None
        } else if str_eq(path, "cards.slots.max") {
            Some(Value::Int(MAX_CARD_SLOTS))
        } else if str_eq(path, "cards.slots.occupied") {
            match &world.cards {
                Some(cards) => Some(Value::Int(count_as_i32(cards.deployed_card_ids.len()))),
                None => None,
            }
        } else {
            match Self::variable_of(path) {
                Some(name) => {
                    proof {
                        lemma_entries_bound(self.variables@, self.variables.len() as nat);
                    }
                    match find_binding(&self.variables, name) {
                        Some(i) => Some(self.variables[i].1.duplicate()),
                        None => None,
                    }
                },
                None => None,
            }
        }
    }

    /// Writes `value` at `path`. Returns whether it did: a path that cannot
    /// be written, a missing resource or a value of the wrong kind change
    /// nothing.
    pub fn set(&mut self, path: &str, value: Value, world: &mut World) -> (r: bool)
        ensures
            written(
                state_set(old(self)@, old(world)@, path@, value@),
                r,
                old(self)@,
                old(world)@,
                final(self)@,
                final(world)@,
            ),
    {
        if str_eq(path, "timer.remaining") {
            match (value.as_int(), world.timer) {
                (Some(seconds), Some(gt)) => {
                    let left: u64 = if seconds > 0 {
                        seconds as u64
                    } else {
                        0
                    };
                    world.timer = Some(
                        GameTimer {
                            timer: gt.timer.with_remaining_seconds(left),
                            paused: gt.paused,
                        },
                    );
                    true
                },
                _ => false,
            }
        } else if str_eq(path, "timer.paused") {
            match (value.as_bool(), world.timer) {
                (Some(paused), Some(gt)) => {
                    world.timer = Some(
                        GameTimer {
                            timer: Timer {
                                duration: gt.timer.duration,
                                elapsed: gt.timer.elapsed,
                                paused,
                            },
                            paused,
                        },
                    );
                    true
                },
                _ => false,
            }
        } else if str_eq(path, "score.current") {
            match (value.as_int(), world.score) {
                (Some(amount), Some(score)) => {
                    world.score = Some(
                        Score {
                            current: amount,
                            passing_grade: score.passing_grade,
                            correct_answers: score.correct_answers,
                            total_answered: score.total_answered,
                        },
                    );
                    true
                },
                _ => false,
            }
        } else if str_eq(path, "score.passing_grade") {
            match (value.as_int(), world.score) {
                (Some(amount), Some(score)) => {
                    world.score = Some(
                        Score {
                            current: score.current,
                            passing_grade: amount,
                            correct_answers: score.correct_answers,
                            total_answered: score.total_answered,
                        },
                    );
                    true
                },
                _ => false,
            }
        } else if str_eq(path, "timer.elapsed") || str_eq(path, "timer.percent_remaining")
            || str_eq(path, "question.points") || str_eq(path, "cards.slots.max") || str_eq(
            path,
            "cards.slots.occupied",
        ) {
            false
        } else {
            match Self::variable_of(path) {
                Some(name) => {
                    let ghost before = self.variables@;
                    put_binding(&mut self.variables, name.to_string(), value);
                    proof {
                        lemma_table_insert(before, self.variables@, name@, value);
                    }
                    true
                },
                None => false,
            }
        }
    }

    /// Adds `amount` to the number at `path`. Returns whether it did.
    pub fn add(&mut self, path: &str, amount: i32, world: &mut World) -> (r: bool)
        ensures
            written(
                state_add(old(self)@, old(world)@, path@, amount as int),
                r,
                old(self)@,
                old(world)@,
                final(self)@,
                final(world)@,
            ),
    {
        match self.get(path, world) {
            Some(current) => match current.as_int() {
                Some(v) => self.set(path, Value::Int(v.wrapping_add(amount)), world),
                None => false,
            },
            None => false,
        }
    }

    /// Subtracts `amount` from the number at `path`. Returns whether it did.
    pub fn subtract(&mut self, path: &str, amount: i32, world: &mut World) -> (r: bool)
        ensures
            written(
                state_subtract(old(self)@, old(world)@, path@, amount as int),
                r,
                old(self)@,
                old(world)@,
                final(self)@,
                final(world)@,
            ),
    {
        let zero: i32 = 0;
        self.add(path, zero.wrapping_sub(amount), world)
    }

    /// Multiplies the number at `path` by `factor`. Returns whether it did.
    pub fn multiply(&mut self, path: &str, factor: Decimal, world: &mut World) -> (r: bool)
        ensures
            written(
                state_multiply(old(self)@, old(world)@, path@, factor.micros as int),
                r,
                old(self)@,
                old(world)@,
                final(self)@,
                final(world)@,
            ),
    {
        match self.get(path, world) {
            Some(Value::Int(v)) => self.set(path, Value::Int(factor.scale_int(v)), world),
            Some(Value::Float(d)) => self.set(path, Value::Float(d.times(factor)), world),
            _ => false,
        }
    }

    /// Writes the flag at `flag`. Returns whether it did.
    pub fn set_flag(&mut self, flag: &str, value: bool, world: &mut World) -> (r: bool)
        ensures
            written(
                state_set(old(self)@, old(world)@, flag@, ValueView::Bool(value)),
                r,
                old(self)@,
                old(world)@,
                final(self)@,
                final(world)@,
            ),
    {
        self.set(flag, Value::Bool(value), world)
    }

    /// Inverts the flag at `flag`. Returns whether it did.
    pub fn toggle_flag(&mut self, flag: &str, world: &mut World) -> (r: bool)
        ensures
            written(
                state_toggle(old(self)@, old(world)@, flag@),
                r,
                old(self)@,
                old(world)@,
                final(self)@,
                final(world)@,
            ),
    {
        match self.get(flag, world) {
            Some(current) => match current.as_bool() {
                Some(b) => self.set_flag(flag, !b, world),
                None => false,
            },
            None => false,
        }
    }

    /// Binds the variable `name`, under the key `var.<name>`.
    pub fn set_variable(&mut self, name: &str, value: Value)
        ensures
            final(self)@ == old(self)@.insert("var."@ + name@, value@),
    {
        let key = String::from_str("var.").concat(name);
        let ghost before = self.variables@;
        put_binding(&mut self.variables, key, value);
        proof {
            lemma_table_insert(before, self.variables@, "var."@ + name@, value);
        }
    }

    /// The value of the variable `name`, kept under the key `var.<name>`.
    pub fn get_variable(&self, name: &str) -> (r: Option<&Value>)
        ensures
            match r {
                Some(v) => self@.contains_key("var."@ + name@) && v@ == self@["var."@ + name@],
                None => !self@.contains_key("var."@ + name@),
            },
    {
        let key = String::from_str("var.").concat(name);
        proof {
            lemma_entries_bound(self.variables@, self.variables.len() as nat);
        }
        match find_binding(&self.variables, key.as_str()) {
            Some(i) => Some(&self.variables[i].1),
            None => None,
        }
    }

    /// Unbinds all variables.
    pub fn clear_variables(&mut self)
        ensures
            final(self)@ == Map::<Seq<char>, ValueView>::empty(),
    {
        self.variables.clear();
    }
}

/// Access to the collections that a state keeps under paths.
pub trait CollectionAccess {
    /// The collection at `path`, to be changed in place, if the state keeps
    /// one there.
    fn get_collection_mut(&mut self, path: &str) -> Option<&mut Vec<Value>>;

    /// The collection at `path`, if the state keeps one there.
    fn get_collection(&self, path: &str) -> Option<&Vec<Value>>;
}

/// The game state keeps no collections: they are with the host's resources.
impl CollectionAccess for GameState {
    fn get_collection_mut(&mut self, path: &str) -> (r: Option<&mut Vec<Value>>)
        ensures
            r is None,
            *final(self) == *old(self),
    {
        None
    }

    fn get_collection(&self, path: &str) -> (r: Option<&Vec<Value>>)
        ensures
            r is None,
    {
        None
    }
}

} // verus!
