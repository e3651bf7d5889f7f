//! The rules of a round of the quiz: what an answer scores, how the quiz
//! moves on, what cards do to the question and the timer.

use crate::chat_plugin::one_more;
use crate::collections::{choose_one, take_picks, valid_picks};
use crate::components::{ModifyPoints, MultiplyPoints, Question, QuestionOption};
use crate::decimal::scaled_int;
use crate::game_state::wrap_i32;
use crate::resources::{GameTimer, QuizState, Score, Timer};
use vstd::prelude::*;

verus! {

/// The points after the additions up to position `n`.
pub open spec fn points_added(base: int, additions: Seq<ModifyPoints>, n: nat) -> int
    decreases n,
{
    if n == 0 || n > additions.len() {
        base
    } else {
        wrap_i32(points_added(base, additions, (n - 1) as nat) + additions[n - 1].points)
    }
}

/// The points after the multiplications up to position `n`, each rounded
/// toward zero.
pub open spec fn points_multiplied(base: int, multipliers: Seq<MultiplyPoints>, n: nat) -> int
    decreases n,
{
    if n == 0 || n > multipliers.len() {
        base
    } else {
        scaled_int(
            points_multiplied(base, multipliers, (n - 1) as nat),
            multipliers[n - 1].multiplier.micros as int,
        )
    }
}

/// The points of a correct answer: the points of the question, with every
/// addition applied and then every multiplication.
pub fn answer_points(
    base: i32,
    additions: &Vec<ModifyPoints>,
    multipliers: &Vec<MultiplyPoints>,
) -> (r: i32)
    ensures
        r == points_multiplied(
            points_added(base as int, additions@, additions.len() as nat),
            multipliers@,
            multipliers.len() as nat,
        ),
{
    let mut points: i32 = base;
    let mut i: usize = 0;
    while i < additions.len()
        invariant
            i <= additions.len(),
            points == points_added(base as int, additions@, i as nat),
        decreases additions.len() - i,
    {
        points = points.wrapping_add(additions[i].points);
        i += 1;
    }
    let ghost added = points as int;
    let mut j: usize = 0;
    while j < multipliers.len()
        invariant
            j <= multipliers.len(),
            points == points_multiplied(added, multipliers@, j as nat),
        decreases multipliers.len() - j,
    {
        points = multipliers[j].multiplier.scale_int(points);
        j += 1;
    }
    points
}

/// The score after an answer: a correct one adds its points.
pub open spec fn score_after(score: Score, correct: bool, points: i32) -> Score {
    Score {
        current: if correct {
            wrap_i32(score.current + points) as i32
        } else {
            score.current
        },
        correct_answers: if correct {
            one_more(score.correct_answers)
        } else {
            score.correct_answers
        },
        total_answered: one_more(score.total_answered),
        ..score
    }
}

/// The quiz after an answer: it moves to the next question, and is complete
/// after the last.
pub open spec fn quiz_after(quiz: QuizState) -> QuizState {
    QuizState {
        current_question_index: one_more(quiz.current_question_index),
        game_complete: quiz.game_complete || one_more(quiz.current_question_index)
            >= quiz.total_questions,
        ..quiz
    }
}

fn count_up(count: usize) -> (r: usize)
    ensures
        r == one_more(count),
{
    if count < usize::MAX {
        count + 1
    } else {
        count
    }
}

/// Scores an answer and moves the quiz to the next question.
pub fn record_answer(quiz_state: &mut QuizState, score: &mut Score, correct: bool, points: i32)
    ensures
        *final(score) == score_after(*old(score), correct, points),
        *final(quiz_state) == quiz_after(*old(quiz_state)),
{
    if correct {
        score.current = score.current.wrapping_add(points);
        score.correct_answers = count_up(score.correct_answers);
    }
    score.total_answered = count_up(score.total_answered);
    quiz_state.current_question_index = count_up(quiz_state.current_question_index);
    if quiz_state.current_question_index >= quiz_state.total_questions {
        quiz_state.game_complete = true;
    }
}

/// The position of the question to ask: the first whose index is the
/// quiz's.
pub fn active_question(questions: &Vec<Question>, quiz_state: &QuizState) -> (r: Option<usize>)
    ensures
        match r {
            Some(i) => {
                &&& i < questions.len()
                &&& questions[i as int].question_index == quiz_state.current_question_index
                &&& forall|j: int|
                    0 <= j < i ==> questions[j].question_index
                        != quiz_state.current_question_index
            },
            None => forall|j: int|
                0 <= j < questions.len() ==> questions[j].question_index
                    != quiz_state.current_question_index,
        },
{
    let mut i: usize = 0;
    while i < questions.len()
        invariant
            i <= questions.len(),
            forall|j: int|
                0 <= j < i ==> questions[j].question_index != quiz_state.current_question_index,
        decreases questions.len() - i,
    {
        if questions[i].question_index == quiz_state.current_question_index {
            return Some(i);
        }
        i += 1;
    }
    None
}

/// Whether the timer runs: the quiz has started and neither it nor the timer
/// is paused.
pub fn timer_runs(quiz_state: &QuizState, game_timer: &GameTimer) -> (r: bool)
    ensures
        r == (quiz_state.game_started && !quiz_state.paused && !game_timer.paused),
{
    quiz_state.game_started && !quiz_state.paused && !game_timer.paused
}

/// The timer after `seconds` have been added to the whole seconds that are
/// left, or taken from them: the time that has passed is set so that the sum
/// is left, none if the sum is negative, and nothing has passed if the sum
/// is more than the duration.
pub open spec fn time_modified(timer: Timer, seconds: int) -> Timer {
    let sum = timer.remaining_seconds() + seconds;
    let left: int = if sum > 0 {
        sum * 1_000_000_000
    } else {
        0
    };
    Timer {
        elapsed: if left >= timer.duration {
            0
        } else {
            (timer.duration - left) as u64
        },
        ..timer
    }
}

/// Adds `seconds` to the time left on the timer, or takes them from it.
pub fn modify_time(timer: &mut Timer, seconds: i64)
    ensures
        *final(timer) == time_modified(*old(timer), seconds as int),
{
    let whole: i128 = (timer.remaining() / 1_000_000_000) as i128;
    let sum: i128 = whole + seconds as i128;
    let left: i128 = if sum > 0 {
        sum * 1_000_000_000
    } else {
        0
    };
    if left >= timer.duration as i128 {
        timer.elapsed = 0;
    } else {
        timer.elapsed = timer.duration - (left as u64);
    }
}

/// The positions of the wrong options.
fn wrong_positions(options: &Vec<QuestionOption>) -> (r: Vec<usize>)
    ensures
        forall|i: int| 0 <= i < r.len() ==> r[i] < options.len() && !options[r[i] as int].correct,
        r.len() == 0 <==> forall|j: int| 0 <= j < options.len() ==> options[j].correct,
{
    let mut out: Vec<usize> = Vec::new();
    let mut i: usize = 0;
    while i < options.len()
        invariant
            i <= options.len(),
            forall|k: int| 0 <= k < out.len() ==> out[k] < options.len() && !options[out[k] as int].correct,
            out.len() == 0 <==> forall|j: int| 0 <= j < i ==> options[j].correct,
        decreases options.len() - i,
    {
        if !options[i].correct {
            out.push(i);
            proof {
                assert(!options[i as int].correct);
            }
        }
        i += 1;
    }
    out
}

/// Takes wrong options away, each picked at random among those left, until
/// `count` are taken or no wrong option is left. The options that stay keep
/// their order. Returns the options taken.
pub fn eliminate_wrong_answers(options: &mut Vec<QuestionOption>, count: usize) -> (r: Vec<
    QuestionOption,
>)
    ensures
        r.len() <= count,
        forall|j: int| 0 <= j < r.len() ==> !r[j].correct,
        r.len() == count || forall|j: int|
            0 <= j < final(options).len() ==> final(options)[j].correct,
        exists|picks: Seq<int>|
            {
                &&& picks.len() == r.len()
                &&& valid_picks(old(options).len() as nat, picks)
                &&& (final(options)@, r@) == #[trigger] take_picks(old(options)@, picks)
            },
{
    let mut taken: Vec<QuestionOption> = Vec::new();
    let ghost picks: Seq<int> = Seq::empty();
    loop
        invariant
            taken.len() <= count,
            taken.len() <= old(options).len(),
            options.len() == old(options).len() - taken.len(),
            picks.len() == taken.len(),
            valid_picks(old(options).len() as nat, picks),
            (options@, taken@) == take_picks(old(options)@, picks),
            forall|j: int| 0 <= j < taken.len() ==> !taken[j].correct,
        ensures
            taken.len() == count || forall|j: int| 0 <= j < options.len() ==> options[j].correct,
        decreases count - taken.len(),
    {
        if taken.len() >= count {
            break ;
        }
        let wrong = wrong_positions(options);
        let at: usize = match choose_one(&wrong) {
            Some(position) => {
                proof {
                    let w = choose|w: int| 0 <= w < wrong.len() && wrong[w] == position;
                    assert(wrong[w] < options.len());
                }
                position
            },
            None => {
                break ;
            },
        };
        let option = options.remove(at);
        taken.push(option);
        proof {
            let before = picks;
            picks = picks.push(at as int);
            assert(picks.drop_last() =~= before);
        }
    }
    taken
}

} // verus!
