use cgq::cards::{card_to_definition, Card, CardEffect, CardVisual, InterceptPattern};
use cgq::chat::ChatCommand;
use cgq::chat_plugin::{
    check_answer_consensus, process_chat_command, reset_votes_on_question_change,
    ChatAnswerTracker, ChatCardVoteTracker, ChatConsensusConfig,
};
use cgq::components::{CardType, ModifyPoints, MultiplyPoints, Question, QuestionOption};
use cgq::decimal::Decimal;
use cgq::game_state::{CollectionAccess, GameState};
use cgq::resources::{GameTimer, QuizState, Score, Timer, NANOS_PER_SECOND};
use cgq::systems::{
    active_question, answer_points, eliminate_wrong_answers, modify_time,
    record_answer, timer_runs,
};
use cgq::value::Value;

fn option(id: &str, correct: bool) -> QuestionOption {
    QuestionOption { id: id.to_string(), text: id.to_uppercase(), correct }
}

fn question(index: usize) -> Question {
    Question {
        id: format!("q{}", index),
        text: "?".to_string(),
        options: vec![option("a", false), option("b", true), option("c", false), option("d", true)],
        points: 2,
        explanation: None,
        source: None,
        tags: vec![],
        question_index: index,
    }
}

fn started(total: usize) -> QuizState {
    QuizState {
        current_question_index: 0,
        total_questions: total,
        game_started: true,
        game_complete: false,
        paused: false,
    }
}

#[test]
fn question_correct_answer_is_the_first_correct_option() {
    let q = question(0);
    assert_eq!(q.correct_answer().unwrap().id, "b");
    let mut none = question(0);
    for o in none.options.iter_mut() {
        o.correct = false;
    }
    assert!(none.correct_answer().is_none());
}

#[test]
fn question_is_correct_lowers_the_answer() {
    let q = question(0);
    assert!(q.is_correct("b"));
    assert!(q.is_correct("D"));
    assert!(!q.is_correct("a"));
    assert!(!q.is_correct("e"));
    assert!(!q.is_correct(" b"));
    assert!(q.has_correct_id("b"));
    assert!(!q.has_correct_id("B"));
}

#[test]
fn trackers_count_one_vote_per_user() {
    let mut tracker = ChatAnswerTracker::default();
    assert_eq!(tracker.get_consensus(), None);
    assert_eq!(tracker.total_votes(), 0);
    assert!(tracker.add_vote("ana", "a"));
    assert!(!tracker.add_vote("ana", "b"));
    assert!(tracker.add_vote("ben", "b"));
    assert!(tracker.add_vote("cem", "b"));
    assert_eq!(tracker.total_votes(), 3);
    assert_eq!(tracker.get_consensus(), Some(("b".to_string(), 2)));
    assert_eq!(tracker.votes.len(), 2);
    tracker.reset();
    assert_eq!(tracker.total_votes(), 0);
    assert!(tracker.add_vote("ana", "c"));
    assert_eq!(tracker.get_consensus(), Some(("c".to_string(), 1)));
}

#[test]
fn card_tracker_names_a_winner() {
    let mut tracker = ChatCardVoteTracker::default();
    assert_eq!(tracker.get_winner(), None);
    assert!(tracker.add_vote("ana", "boycott"));
    assert!(tracker.add_vote("ben", "olive tree"));
    assert!(tracker.add_vote("cem", "olive tree"));
    assert!(!tracker.add_vote("cem", "boycott"));
    assert_eq!(tracker.get_winner(), Some(("olive tree".to_string(), 2)));
    assert_eq!(tracker.total_votes(), 3);
    tracker.reset();
    assert_eq!(tracker.get_winner(), None);
}

#[test]
fn tied_votes_name_one_of_the_leaders() {
    let mut tracker = ChatAnswerTracker::default();
    assert!(tracker.add_vote("ana", "a"));
    assert!(tracker.add_vote("ben", "b"));
    let (answer, count) = tracker.get_consensus().unwrap();
    assert_eq!(count, 1);
    assert!(answer == "a" || answer == "b");
}

#[test]
fn commands_vote() {
    let mut answers = ChatAnswerTracker::default();
    let mut cards = ChatCardVoteTracker::default();
    let answer = ChatCommand::Answer {
        username: "ana".to_string(),
        user_id: None,
        answer: "a".to_string(),
    };
    let card = ChatCommand::UseCard {
        username: "ana".to_string(),
        user_id: None,
        card_name: "boycott".to_string(),
    };
    assert!(process_chat_command(&answer, &mut answers, &mut cards));
    assert!(!process_chat_command(&answer, &mut answers, &mut cards));
    assert!(process_chat_command(&card, &mut answers, &mut cards));
    assert!(!process_chat_command(&ChatCommand::Unknown, &mut answers, &mut cards));
    assert_eq!(answers.total_votes(), 1);
    assert_eq!(cards.get_winner(), Some(("boycott".to_string(), 1)));
}

#[test]
fn answer_points_add_then_multiply() {
    let additions = vec![
        ModifyPoints { points: 3, priority: 1 },
        ModifyPoints { points: -1, priority: 2 },
    ];
    let multipliers = vec![
        MultiplyPoints { multiplier: Decimal::from_micros(1_500_000), priority: 1 },
        MultiplyPoints { multiplier: Decimal::from_int(2), priority: 2 },
    ];
    assert_eq!(answer_points(2, &vec![], &vec![]), 2);
    assert_eq!(answer_points(2, &additions, &vec![]), 4);
    assert_eq!(answer_points(3, &vec![], &multipliers), 8);
    assert_eq!(answer_points(3, &additions, &multipliers), 14);
    assert_eq!(answer_points(i32::MAX, &vec![ModifyPoints { points: 1, priority: 0 }], &vec![]), i32::MIN);
}

#[test]
fn record_answer_scores_and_moves_on() {
    let mut quiz = started(2);
    let mut score = Score { current: 1, passing_grade: 6, correct_answers: 0, total_answered: 0 };
    record_answer(&mut quiz, &mut score, true, 5);
    assert_eq!(score, Score { current: 6, passing_grade: 6, correct_answers: 1, total_answered: 1 });
    assert_eq!(quiz.current_question_index, 1);
    assert!(!quiz.game_complete);
    record_answer(&mut quiz, &mut score, false, 5);
    assert_eq!(score, Score { current: 6, passing_grade: 6, correct_answers: 1, total_answered: 2 });
    assert_eq!(quiz.current_question_index, 2);
    assert!(quiz.game_complete);
}

#[test]
fn consensus_answers_once_the_threshold_is_met() {
    let config = ChatConsensusConfig { answer_threshold: 2, card_threshold: 4 };
    let asked = question(0);
    let mut tracker = ChatAnswerTracker::default();
    let mut quiz = started(3);
    let mut score = Score::default();
    assert!(!check_answer_consensus(&config, &mut tracker, &mut quiz, &mut score, Some(&asked)));
    assert!(tracker.add_vote("ana", "b"));
    assert!(!check_answer_consensus(&config, &mut tracker, &mut quiz, &mut score, Some(&asked)));
    assert_eq!(tracker.total_votes(), 1);
    assert!(tracker.add_vote("ben", "b"));
    assert!(!check_answer_consensus(&config, &mut tracker, &mut quiz, &mut score, None));
    assert_eq!(tracker.total_votes(), 2);
    let mut paused = started(3);
    paused.paused = true;
    assert!(!check_answer_consensus(&config, &mut tracker, &mut paused, &mut score, Some(&asked)));
    assert!(check_answer_consensus(&config, &mut tracker, &mut quiz, &mut score, Some(&asked)));
    assert_eq!(score, Score { current: 2, passing_grade: 6, correct_answers: 1, total_answered: 1 });
    assert_eq!(quiz.current_question_index, 1);
    assert_eq!(tracker.total_votes(), 0);
    assert!(tracker.add_vote("ana", "a"));
    assert!(tracker.add_vote("ben", "a"));
    assert!(check_answer_consensus(&config, &mut tracker, &mut quiz, &mut score, Some(&asked)));
    assert_eq!(score, Score { current: 2, passing_grade: 6, correct_answers: 1, total_answered: 2 });
}

#[test]
fn votes_are_forgotten_when_the_question_changes() {
    let mut answers = ChatAnswerTracker::default();
    let mut cards = ChatCardVoteTracker::default();
    assert!(answers.add_vote("ana", "a"));
    assert!(cards.add_vote("ana", "boycott"));
    let mut quiz = started(2);
    assert!(!reset_votes_on_question_change(false, &quiz, &mut answers, &mut cards));
    quiz.game_started = false;
    assert!(!reset_votes_on_question_change(true, &quiz, &mut answers, &mut cards));
    assert_eq!(answers.total_votes(), 1);
    quiz.game_started = true;
    assert!(reset_votes_on_question_change(true, &quiz, &mut answers, &mut cards));
    assert_eq!(answers.total_votes(), 0);
    assert_eq!(cards.total_votes(), 0);
}

#[test]
fn the_active_question_has_the_index_of_the_quiz() {
    let questions = vec![question(2), question(0), question(1), question(0)];
    let mut quiz = started(3);
    assert_eq!(active_question(&questions, &quiz), Some(1));
    quiz.current_question_index = 2;
    assert_eq!(active_question(&questions, &quiz), Some(0));
    quiz.current_question_index = 3;
    assert_eq!(active_question(&questions, &quiz), None);
}

#[test]
fn the_timer_runs_unless_something_is_paused() {
    let timer = GameTimer::default();
    assert_eq!(timer.timer.duration, 600 * NANOS_PER_SECOND);
    let mut quiz = started(1);
    assert!(timer_runs(&quiz, &timer));
    assert!(!timer_runs(&quiz, &GameTimer { paused: true, ..timer }));
    quiz.paused = true;
    assert!(!timer_runs(&quiz, &timer));
    assert!(!timer_runs(&QuizState::default(), &timer));
}

#[test]
fn timer_ticks_up_to_its_duration() {
    let mut timer = Timer::from_seconds(2);
    timer.tick(1_500_000_000);
    assert_eq!(timer.elapsed, 1_500_000_000);
    assert_eq!(timer.remaining(), 500_000_000);
    assert_eq!(timer.percent_remaining(), 25_000_000);
    timer.tick(u64::MAX);
    assert_eq!(timer.elapsed, timer.duration);
    timer.tick(1);
    assert_eq!(timer.elapsed, timer.duration);
    let mut paused = Timer { paused: true, ..Timer::from_seconds(2) };
    paused.tick(1);
    assert_eq!(paused.elapsed, 0);
    assert_eq!(Timer::from_seconds(u64::MAX).duration, u64::MAX);
    assert_eq!(Timer::from_seconds(5).with_remaining_seconds(u64::MAX).duration, u64::MAX);
}

#[test]
fn cards_modify_the_time_that_is_left() {
    let mut timer = Timer::from_seconds(100);
    timer.tick(40_500_000_000);
    modify_time(&mut timer, 10);
    assert_eq!(timer.elapsed, 31_000_000_000);
    assert_eq!(timer.remaining(), 69_000_000_000);
    modify_time(&mut timer, -100);
    assert_eq!(timer.remaining(), 0);
    modify_time(&mut timer, 1000);
    assert_eq!(timer.elapsed, 0);
    modify_time(&mut timer, i64::MAX);
    assert_eq!(timer.elapsed, 0);
    modify_time(&mut timer, i64::MIN);
    assert_eq!(timer.elapsed, timer.duration);
}

#[test]
fn wrong_answers_are_eliminated_at_random() {
    for _ in 0..30 {
        let mut options = question(0).options;
        let taken = eliminate_wrong_answers(&mut options, 1);
        assert_eq!(taken.len(), 1);
        assert!(!taken[0].correct);
        assert_eq!(options.len(), 3);
        let ids: Vec<&str> = options.iter().map(|o| o.id.as_str()).collect();
        assert!(ids == vec!["b", "c", "d"] || ids == vec!["a", "b", "d"]);
    }
    let mut options = question(0).options;
    let taken = eliminate_wrong_answers(&mut options, 5);
    assert_eq!(taken.len(), 2);
    let ids: Vec<&str> = options.iter().map(|o| o.id.as_str()).collect();
    assert_eq!(ids, vec!["b", "d"]);
    assert!(eliminate_wrong_answers(&mut options, 1).is_empty());
    let mut untouched = question(0).options;
    assert!(eliminate_wrong_answers(&mut untouched, 0).is_empty());
    assert_eq!(untouched.len(), 4);
}

#[test]
fn a_card_becomes_its_definition() {
    let card = Card {
        id: "c1".to_string(),
        name: "Card".to_string(),
        card_type: CardType::Politics,
        permanence: "permanent".to_string(),
        vote_requirement: 3,
        cost: 5,
        description: Some("text".to_string()),
        tags: vec!["t".to_string()],
        effects: vec![CardEffect {
            id: "e".to_string(),
            effect_type: "modify_time".to_string(),
            parameters: Value::Object(vec![("seconds".to_string(), Value::Int(30))]),
            intercepts: vec![InterceptPattern {
                component: "timer".to_string(),
                operation: "tick".to_string(),
            }],
            timing: "after".to_string(),
            priority: 7,
        }],
        visual: CardVisual { image: Some("card.png".to_string()), sound: None },
    };
    let definition = card_to_definition(card);
    assert_eq!(definition.id, "c1");
    assert_eq!(definition.name, "Card");
    assert_eq!(definition.card_type, CardType::Politics);
    assert_eq!(definition.description, Some("text".to_string()));
    assert_eq!(definition.cost, 5);
    assert_eq!(definition.vote_requirement, 3);
    assert_eq!(definition.effects.len(), 1);
    assert_eq!(definition.effects[0].effect_type, "modify_time");
    assert_eq!(definition.effects[0].priority, 7);
    assert_eq!(
        definition.effects[0].parameters,
        Value::Object(vec![("seconds".to_string(), Value::Int(30))])
    );
    assert_eq!(definition.image_path, Some("cards/card.png".to_string()));
    let visual = CardVisual::default();
    assert!(visual.image.is_none() && visual.sound.is_none());
}

#[test]
fn the_game_state_keeps_no_collections() {
    let mut state = GameState::default();
    assert!(state.get_collection("question.options").is_none());
    assert!(state.get_collection_mut("question.options").is_none());
}

#[test]
fn game_state_variables_and_paths_are_apart() {
    let mut state = GameState::new();
    let mut world = cgq::resources::World::new();
    state.set_variable("x", Value::Int(1));
    assert_eq!(state.get("var.x", &world), None);
    assert!(state.set("var.x", Value::Int(2), &mut world));
    assert_eq!(state.get("var.x", &world), Some(Value::Int(2)));
    assert_eq!(state.get_variable("x"), Some(&Value::Int(1)));
    assert_eq!(state.get("var.", &world), None);
    assert!(state.set("var.", Value::Null, &mut world));
    assert_eq!(state.get("var.", &world), Some(Value::Null));
    assert!(!state.set("var", Value::Null, &mut world));
    assert!(!state.set("variable.x", Value::Null, &mut world));
}
