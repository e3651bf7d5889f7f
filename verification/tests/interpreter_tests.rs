use cgq::collections::{Collection, CollectionManager};
use cgq::decimal::Decimal;
use cgq::effect::{CardEffect, EffectContext, EffectOperation, EffectTiming, Predicate};
use cgq::effect_executor::{
    collection_ops, control_flow, event_ops, flag_ops, value_ops, variable_ops, EffectExecutor,
};
use cgq::error::EffectError;
use cgq::game_state::GameState;
use cgq::resources::{CardManager, GameTimer, Score, Timer, World};
use cgq::value::Value;

struct Rig {
    executor: EffectExecutor,
    context: EffectContext,
    state: GameState,
    world: World,
}

impl Rig {
    fn new() -> Rig {
        let mut world = World::new();
        world.timer = Some(GameTimer { timer: Timer::from_seconds(300), paused: false });
        world.score =
            Some(Score { current: 10, passing_grade: 20, correct_answers: 0, total_answered: 0 });
        world.cards = Some(CardManager::default());
        world.collections = Some(CollectionManager::new());
        Rig {
            executor: EffectExecutor::new(),
            context: EffectContext::new("card".to_string(), "effect".to_string()),
            state: GameState::new(),
            world,
        }
    }

    fn run(&mut self, op: &EffectOperation) -> Result<(), EffectError> {
        self.executor.execute_operation(op, &mut self.context, &mut self.state, &mut self.world)
    }

    fn holds(&self, p: &Predicate) -> Result<bool, EffectError> {
        self.executor.evaluate_predicate(p, &self.context, &self.state, &self.world)
    }

    fn get(&self, path: &str) -> Option<Value> {
        self.state.get(path, &self.world)
    }

    fn set_collection(&mut self, name: &str, items: Vec<Value>) {
        self.world.collections.as_mut().unwrap().set(name, Collection::from_vec(items));
    }

    fn items(&self, name: &str) -> Vec<Value> {
        self.world.collections.as_ref().unwrap().get(name).unwrap().to_vec()
    }
}

fn add(target: &str, amount: i32) -> EffectOperation {
    EffectOperation::Add { target: target.to_string(), amount }
}

fn subtract(target: &str, amount: i32) -> EffectOperation {
    EffectOperation::Subtract { target: target.to_string(), amount }
}

fn always() -> Predicate {
    Predicate::And { predicates: vec![] }
}

fn greater(field: &str, value: i32) -> Predicate {
    Predicate::GreaterThan { field: field.to_string(), value: Value::Int(value) }
}

fn tagged(correct: bool, id: i32) -> Value {
    Value::Object(vec![
        ("id".to_string(), Value::Int(id)),
        ("correct".to_string(), Value::Bool(correct)),
    ])
}

#[test]
fn scenario_add_time() {
    let mut rig = Rig::new();
    assert_eq!(rig.get("timer.remaining"), Some(Value::Int(300)));
    assert!(rig.run(&add("timer.remaining", 60)).is_ok());
    assert_eq!(rig.get("timer.remaining"), Some(Value::Int(360)));
}

#[test]
fn scenario_conditional_score() {
    let mut rig = Rig::new();
    let op = EffectOperation::IfCondition {
        condition: greater("timer.remaining", 200),
        then_: vec![add("score.current", 5)],
        else_: Some(vec![subtract("score.current", 2)]),
    };
    assert!(rig.run(&op).is_ok());
    assert_eq!(rig.get("score.current"), Some(Value::Int(15)));
}

#[test]
fn scenario_conditional_score_else_branch() {
    let mut rig = Rig::new();
    let op = EffectOperation::IfCondition {
        condition: greater("timer.remaining", 300),
        then_: vec![add("score.current", 5)],
        else_: Some(vec![subtract("score.current", 2)]),
    };
    assert!(rig.run(&op).is_ok());
    assert_eq!(rig.get("score.current"), Some(Value::Int(8)));
}

#[test]
fn scenario_conditional_without_else_does_nothing() {
    let mut rig = Rig::new();
    let op = EffectOperation::IfCondition {
        condition: greater("timer.remaining", 300),
        then_: vec![add("score.current", 5)],
        else_: None,
    };
    assert!(rig.run(&op).is_ok());
    assert_eq!(rig.get("score.current"), Some(Value::Int(10)));
}

#[test]
fn scenario_eliminate_wrong_answer() {
    let mut rig = Rig::new();
    rig.set_collection(
        "question.options",
        vec![tagged(true, 1), tagged(false, 2), tagged(false, 3), tagged(false, 4)],
    );
    let wrong = Predicate::Equals { field: "correct".to_string(), value: Value::Bool(false) };
    assert!(rig
        .run(&EffectOperation::Filter {
            target: "question.options".to_string(),
            predicate: wrong.clone(),
        })
        .is_ok());
    assert_eq!(rig.items("question.options").len(), 3);
    assert!(rig
        .run(&EffectOperation::Remove {
            target: "question.options".to_string(),
            count: 1,
            filter: None,
            random: Some(true),
        })
        .is_ok());
    let left = rig.items("question.options");
    assert_eq!(left.len(), 2);
    let removed = rig.context.get_variable("removed").unwrap().clone();
    assert!(cgq::collections::evaluate_item_predicate(&wrong, &removed).unwrap());
    assert!(!left.contains(&removed));
    for item in left.iter() {
        assert!(cgq::collections::evaluate_item_predicate(&wrong, item).unwrap());
    }
}

#[test]
fn scenario_set_then_toggle_flag() {
    let mut rig = Rig::new();
    assert!(rig
        .run(&EffectOperation::SetFlag { flag: "timer.paused".to_string(), value: true })
        .is_ok());
    assert_eq!(rig.get("timer.paused"), Some(Value::Bool(true)));
    assert_eq!(rig.world.timer.unwrap().timer.paused, true);
    assert!(rig.run(&EffectOperation::ToggleFlag { flag: "timer.paused".to_string() }).is_ok());
    assert_eq!(rig.get("timer.paused"), Some(Value::Bool(false)));
    assert_eq!(rig.world.timer.unwrap().timer.paused, false);
}

#[test]
fn scenario_event_listener_scores() {
    let mut rig = Rig::new();
    assert!(rig
        .run(&EffectOperation::OnEvent {
            event: "scored".to_string(),
            operations: vec![add("score.current", 1)],
        })
        .is_ok());
    assert_eq!(rig.get("score.current"), Some(Value::Int(10)));
    let emit = EffectOperation::EmitEvent { event: "scored".to_string(), data: None };
    assert!(rig.run(&emit).is_ok());
    assert_eq!(rig.get("score.current"), Some(Value::Int(11)));
    assert!(rig.run(&emit).is_ok());
    assert_eq!(rig.get("score.current"), Some(Value::Int(12)));
}

#[test]
fn add_then_subtract_restores() {
    for (path, amount) in [("score.current", 7), ("score.passing_grade", -3), ("timer.remaining", 45)] {
        let mut rig = Rig::new();
        let before = rig.get(path);
        assert!(rig.run(&add(path, amount)).is_ok());
        assert_ne!(rig.get(path), before);
        assert!(rig.run(&subtract(path, amount)).is_ok());
        assert_eq!(rig.get(path), before);
    }
}

#[test]
fn add_then_subtract_restores_across_the_wrap() {
    let mut rig = Rig::new();
    rig.world.score.as_mut().unwrap().current = i32::MAX;
    assert!(rig.run(&add("score.current", 1)).is_ok());
    assert_eq!(rig.get("score.current"), Some(Value::Int(i32::MIN)));
    assert!(rig.run(&subtract("score.current", 1)).is_ok());
    assert_eq!(rig.get("score.current"), Some(Value::Int(i32::MAX)));
    assert!(rig.run(&subtract("score.current", i32::MIN)).is_ok());
    assert_eq!(rig.get("score.current"), Some(Value::Int(-1)));
}

#[test]
fn add_then_subtract_restores_a_variable() {
    let mut rig = Rig::new();
    assert!(rig.state.set("var.lives", Value::Int(3), &mut rig.world));
    assert!(rig.run(&add("var.lives", 2)).is_ok());
    assert_eq!(rig.get("var.lives"), Some(Value::Int(5)));
    assert!(rig.run(&subtract("var.lives", 2)).is_ok());
    assert_eq!(rig.get("var.lives"), Some(Value::Int(3)));
}

#[test]
fn timer_does_not_go_negative() {
    let mut rig = Rig::new();
    assert!(rig.run(&subtract("timer.remaining", 1000)).is_ok());
    assert_eq!(rig.get("timer.remaining"), Some(Value::Int(0)));
}

#[test]
fn timer_set_keeps_what_has_passed() {
    let mut rig = Rig::new();
    let mut timer = Timer::from_seconds(400);
    timer.tick(100_500_000_000);
    rig.world.timer = Some(GameTimer { timer, paused: false });
    assert_eq!(rig.get("timer.remaining"), Some(Value::Int(299)));
    assert_eq!(rig.get("timer.elapsed"), Some(Value::Int(100)));
    assert!(rig.run(&add("timer.remaining", 1)).is_ok());
    assert_eq!(rig.get("timer.remaining"), Some(Value::Int(300)));
    assert_eq!(rig.get("timer.elapsed"), Some(Value::Int(100)));
    assert_eq!(rig.world.timer.unwrap().timer.duration, 400_500_000_000);
}

#[test]
fn filter_keeps_exactly_what_satisfies() {
    let mut rig = Rig::new();
    let items: Vec<Value> =
        (1..=6).map(|i| Value::Object(vec![("value".to_string(), Value::Int(i * 10))])).collect();
    rig.set_collection("items", items.clone());
    let p = greater("value", 25);
    assert!(rig
        .run(&EffectOperation::Filter { target: "items".to_string(), predicate: p.clone() })
        .is_ok());
    let kept = rig.items("items");
    assert_eq!(kept, items[2..].to_vec());
    for item in items.iter() {
        let satisfied = cgq::collections::evaluate_item_predicate(&p, item).unwrap();
        assert_eq!(kept.contains(item), satisfied);
    }
}

#[test]
fn filter_on_missing_collection_does_nothing() {
    let mut rig = Rig::new();
    assert!(rig
        .run(&EffectOperation::Filter { target: "nowhere".to_string(), predicate: always() })
        .is_ok());
    assert!(!rig.world.collections.as_ref().unwrap().contains("nowhere"));
}

#[test]
fn filter_that_fails_changes_nothing() {
    let mut rig = Rig::new();
    let items = vec![
        Value::Object(vec![("value".to_string(), Value::Int(1))]),
        Value::Object(vec![("value".to_string(), Value::String("two".to_string()))]),
    ];
    rig.set_collection("items", items.clone());
    let result = rig.run(&EffectOperation::Filter {
        target: "items".to_string(),
        predicate: greater("value", 5),
    });
    match result {
        Err(EffectError::InvalidValue(text)) => assert_eq!(text, "Not a number"),
        other => panic!("expected an invalid value, got {:?}", other),
    }
    assert_eq!(rig.items("items"), items);
}

#[test]
fn remove_leaves_the_rest() {
    for (count, left) in [(0usize, 4usize), (1, 3), (4, 0), (5, 0), (usize::MAX, 0)] {
        for random in [None, Some(false), Some(true)] {
            let mut rig = Rig::new();
            rig.set_collection("n", (1..=4).map(Value::Int).collect());
            assert!(rig
                .run(&EffectOperation::Remove { target: "n".to_string(), count, filter: None, random })
                .is_ok());
            assert_eq!(rig.items("n").len(), left);
        }
    }
}

#[test]
fn remove_takes_from_the_end_last_first() {
    let mut rig = Rig::new();
    rig.set_collection("n", (1..=5).map(Value::Int).collect());
    assert!(rig
        .run(&EffectOperation::Remove { target: "n".to_string(), count: 2, filter: None, random: None })
        .is_ok());
    assert_eq!(rig.items("n"), vec![Value::Int(1), Value::Int(2), Value::Int(3)]);
    assert_eq!(
        rig.context.get_variable("removed"),
        Some(&Value::Array(vec![Value::Int(5), Value::Int(4)]))
    );
}

#[test]
fn remove_binds_a_single_item_as_itself() {
    let mut rig = Rig::new();
    rig.set_collection("n", (1..=3).map(Value::Int).collect());
    assert!(rig
        .run(&EffectOperation::Remove {
            target: "n".to_string(),
            count: 1,
            filter: None,
            random: Some(false),
        })
        .is_ok());
    assert_eq!(rig.context.get_variable("removed"), Some(&Value::Int(3)));
    assert!(rig
        .run(&EffectOperation::Remove { target: "n".to_string(), count: 0, filter: None, random: None })
        .is_ok());
    assert_eq!(rig.context.get_variable("removed"), Some(&Value::Array(vec![])));
}

#[test]
fn remove_filters_first() {
    let mut rig = Rig::new();
    let items: Vec<Value> =
        (1..=5).map(|i| Value::Object(vec![("v".to_string(), Value::Int(i))])).collect();
    rig.set_collection("n", items.clone());
    assert!(rig
        .run(&EffectOperation::Remove {
            target: "n".to_string(),
            count: 1,
            filter: Some(greater("v", 2)),
            random: None,
        })
        .is_ok());
    assert_eq!(rig.items("n"), vec![items[2].clone(), items[3].clone()]);
    assert_eq!(rig.context.get_variable("removed"), Some(&items[4]));
}

#[test]
fn remove_at_random_takes_items_of_the_collection() {
    for _ in 0..50 {
        let mut rig = Rig::new();
        let items: Vec<Value> = (1..=6).map(Value::Int).collect();
        rig.set_collection("n", items.clone());
        assert!(rig
            .run(&EffectOperation::Remove {
                target: "n".to_string(),
                count: 4,
                filter: None,
                random: Some(true),
            })
            .is_ok());
        let left = rig.items("n");
        let removed = match rig.context.get_variable("removed") {
            Some(Value::Array(gone)) => gone.clone(),
            other => panic!("expected a list, got {:?}", other),
        };
        assert_eq!(left.len(), 2);
        assert_eq!(removed.len(), 4);
        let mut all: Vec<i32> =
            left.iter().chain(removed.iter()).map(|v| v.as_int().unwrap()).collect();
        all.sort();
        assert_eq!(all, vec![1, 2, 3, 4, 5, 6]);
        let kept: Vec<i32> = left.iter().map(|v| v.as_int().unwrap()).collect();
        assert!(kept[0] < kept[1]);
    }
}

#[test]
fn remove_picked_takes_positions_in_what_is_left() {
    let mut collection = Collection::from_vec((0..5).map(Value::Int).collect());
    let removed = collection.remove_picked(&vec![1, 1, 2]);
    assert_eq!(removed, vec![Value::Int(1), Value::Int(2), Value::Int(4)]);
    assert_eq!(collection.to_vec(), vec![Value::Int(0), Value::Int(3)]);
}

#[test]
fn append_and_insert_create_the_collection() {
    let mut rig = Rig::new();
    assert!(rig
        .run(&EffectOperation::Append { target: "fresh".to_string(), item: Value::Int(1) })
        .is_ok());
    assert!(rig
        .run(&EffectOperation::Insert { target: "fresh".to_string(), index: 0, item: Value::Int(0) })
        .is_ok());
    assert!(rig
        .run(&EffectOperation::Insert { target: "fresh".to_string(), index: 9, item: Value::Int(9) })
        .is_ok());
    assert!(rig
        .run(&EffectOperation::Insert { target: "fresh".to_string(), index: 3, item: Value::Int(3) })
        .is_ok());
    assert_eq!(
        rig.items("fresh"),
        vec![Value::Int(0), Value::Int(1), Value::Int(9), Value::Int(3)]
    );
    assert!(rig
        .run(&EffectOperation::Insert { target: "other".to_string(), index: 5, item: Value::Null })
        .is_ok());
    assert_eq!(rig.items("other"), vec![Value::Null]);
}

#[test]
fn collection_operations_need_the_collections() {
    let operations = vec![
        EffectOperation::Filter { target: "n".to_string(), predicate: always() },
        EffectOperation::Remove { target: "n".to_string(), count: 1, filter: None, random: None },
        EffectOperation::Append { target: "n".to_string(), item: Value::Null },
        EffectOperation::Insert { target: "n".to_string(), index: 0, item: Value::Null },
        EffectOperation::ForEach { collection: "n".to_string(), operations: vec![] },
    ];
    for op in operations.iter() {
        let mut rig = Rig::new();
        rig.world.collections = None;
        match rig.run(op) {
            Err(EffectError::OperationError(text)) => {
                assert_eq!(text, "CollectionManager not available")
            }
            other => panic!("expected an operation error, got {:?}", other),
        }
    }
}

#[test]
fn for_each_runs_once_per_item() {
    let mut rig = Rig::new();
    rig.set_collection("n", vec![Value::Int(5), Value::Int(10), Value::Int(15)]);
    let op = EffectOperation::ForEach {
        collection: "n".to_string(),
        operations: vec![add("score.current", 1)],
    };
    assert!(rig.run(&op).is_ok());
    assert_eq!(rig.get("score.current"), Some(Value::Int(13)));
    assert_eq!(rig.context.get_variable("item"), Some(&Value::Int(15)));
    assert_eq!(rig.context.get_variable("index"), Some(&Value::Int(2)));
}

#[test]
fn for_each_over_nothing_binds_nothing() {
    let mut rig = Rig::new();
    rig.set_collection("n", vec![]);
    for name in ["n", "missing"] {
        let op = EffectOperation::ForEach {
            collection: name.to_string(),
            operations: vec![add("score.current", 1)],
        };
        assert!(rig.run(&op).is_ok());
    }
    assert_eq!(rig.get("score.current"), Some(Value::Int(10)));
    assert_eq!(rig.context.get_variable("item"), None);
    assert_eq!(rig.context.get_variable("index"), None);
}

#[test]
fn for_each_iterates_over_a_snapshot() {
    let mut rig = Rig::new();
    rig.set_collection("n", vec![Value::Int(1), Value::Int(2)]);
    let op = EffectOperation::ForEach {
        collection: "n".to_string(),
        operations: vec![
            EffectOperation::Append { target: "n".to_string(), item: Value::Int(0) },
            add("score.current", 1),
        ],
    };
    assert!(rig.run(&op).is_ok());
    assert_eq!(rig.get("score.current"), Some(Value::Int(12)));
    assert_eq!(rig.items("n").len(), 4);
}

#[test]
fn for_each_binds_item_for_predicates() {
    let mut rig = Rig::new();
    rig.set_collection("n", vec![Value::Int(1), Value::Int(7), Value::Int(9)]);
    let op = EffectOperation::ForEach {
        collection: "n".to_string(),
        operations: vec![EffectOperation::IfCondition {
            condition: greater("$item", 5),
            then_: vec![add("score.current", 1)],
            else_: None,
        }],
    };
    assert!(rig.run(&op).is_ok());
    assert_eq!(rig.get("score.current"), Some(Value::Int(12)));
}

#[test]
fn while_stops_at_its_bound_without_rollback() {
    for bound in [0usize, 1, 3] {
        let mut rig = Rig::new();
        let op = EffectOperation::While {
            condition: always(),
            operations: vec![add("score.current", 1)],
            max_iterations: Some(bound),
        };
        match rig.run(&op) {
            Err(EffectError::MaxIterationsReached) => {}
            other => panic!("expected the bound to be reached, got {:?}", other),
        }
        assert_eq!(rig.get("score.current"), Some(Value::Int(10 + bound as i32)));
    }
}

#[test]
fn while_without_bound_allows_a_hundred_runs() {
    let mut rig = Rig::new();
    let op = EffectOperation::While {
        condition: always(),
        operations: vec![add("score.current", 1)],
        max_iterations: None,
    };
    assert!(matches!(rig.run(&op), Err(EffectError::MaxIterationsReached)));
    assert_eq!(rig.get("score.current"), Some(Value::Int(110)));
}

#[test]
fn while_ends_when_the_condition_fails() {
    let mut rig = Rig::new();
    let op = EffectOperation::While {
        condition: Predicate::LessThan { field: "score.current".to_string(), value: Value::Int(15) },
        operations: vec![add("score.current", 2)],
        max_iterations: Some(3),
    };
    assert!(rig.run(&op).is_ok());
    assert_eq!(rig.get("score.current"), Some(Value::Int(16)));
}

#[test]
fn while_that_ends_exactly_at_the_bound_succeeds() {
    let mut rig = Rig::new();
    let op = EffectOperation::While {
        condition: Predicate::LessThan { field: "score.current".to_string(), value: Value::Int(13) },
        operations: vec![add("score.current", 1)],
        max_iterations: Some(3),
    };
    assert!(rig.run(&op).is_ok());
    assert_eq!(rig.get("score.current"), Some(Value::Int(13)));
}

#[test]
fn boolean_algebra() {
    let rig = Rig::new();
    assert_eq!(rig.holds(&Predicate::And { predicates: vec![] }).unwrap(), true);
    assert_eq!(rig.holds(&Predicate::Or { predicates: vec![] }).unwrap(), false);
    for p in [greater("score.current", 5), greater("score.current", 50), greater("nowhere", 1)] {
        let twice = Predicate::Not {
            predicate: Box::new(Predicate::Not { predicate: Box::new(p.clone()) }),
        };
        match (rig.holds(&p), rig.holds(&twice)) {
            (Ok(a), Ok(b)) => assert_eq!(a, b),
            (Err(EffectError::InvalidPath(a)), Err(EffectError::InvalidPath(b))) => assert_eq!(a, b),
            other => panic!("verdicts differ: {:?}", other),
        }
    }
    let item = Value::Object(vec![("v".to_string(), Value::Int(1))]);
    assert!(cgq::collections::evaluate_item_predicate(&Predicate::And { predicates: vec![] }, &item)
        .unwrap());
    assert!(!cgq::collections::evaluate_item_predicate(&Predicate::Or { predicates: vec![] }, &item)
        .unwrap());
}

#[test]
fn combinators_stop_at_the_first_that_decides() {
    let rig = Rig::new();
    let broken = greater("nowhere", 1);
    let no = greater("score.current", 50);
    let yes = greater("score.current", 5);
    assert_eq!(
        rig.holds(&Predicate::And { predicates: vec![no.clone(), broken.clone()] }).unwrap(),
        false
    );
    assert_eq!(
        rig.holds(&Predicate::Or { predicates: vec![yes.clone(), broken.clone()] }).unwrap(),
        true
    );
    assert!(rig.holds(&Predicate::And { predicates: vec![yes, broken.clone()] }).is_err());
    assert!(rig.holds(&Predicate::Or { predicates: vec![no, broken] }).is_err());
}

#[test]
fn state_predicates_without_an_implementation_are_false() {
    let rig = Rig::new();
    let predicates = vec![
        Predicate::HasTag { tag: "x".to_string() },
        Predicate::IsType { card_type: "x".to_string() },
        Predicate::Contains { field: "score.current".to_string(), value: Value::Int(10) },
        Predicate::Expression { expr: "1 == 1".to_string() },
    ];
    for p in predicates.iter() {
        assert_eq!(rig.holds(p).unwrap(), false);
    }
}

#[test]
fn state_comparison_of_values_that_are_no_numbers_is_false() {
    let rig = Rig::new();
    for p in [
        Predicate::GreaterThan { field: "timer.paused".to_string(), value: Value::Int(0) },
        Predicate::LessOrEqual { field: "score.current".to_string(), value: Value::Null },
        Predicate::GreaterOrEqual {
            field: "score.current".to_string(),
            value: Value::String("10".to_string()),
        },
    ] {
        assert_eq!(rig.holds(&p).unwrap(), false);
    }
}

#[test]
fn state_comparison_mixes_integers_and_decimals() {
    let rig = Rig::new();
    let half_more = Value::Float(Decimal::from_micros(10_500_000));
    assert!(rig
        .holds(&Predicate::LessThan { field: "score.current".to_string(), value: half_more.clone() })
        .unwrap());
    assert!(!rig
        .holds(&Predicate::GreaterOrEqual { field: "score.current".to_string(), value: half_more })
        .unwrap());
    assert!(rig
        .holds(&Predicate::GreaterOrEqual {
            field: "score.current".to_string(),
            value: Value::Float(Decimal::from_int(10)),
        })
        .unwrap());
    assert!(!rig
        .holds(&Predicate::Equals {
            field: "score.current".to_string(),
            value: Value::Float(Decimal::from_int(10)),
        })
        .unwrap());
}

#[test]
fn predicates_resolve_variables_before_paths() {
    let mut rig = Rig::new();
    rig.context.set_variable("lives".to_string(), Value::Int(3));
    assert!(rig.holds(&greater("$lives", 2)).unwrap());
    match rig.holds(&greater("$unbound", 2)) {
        Err(EffectError::InvalidPath(path)) => assert_eq!(path, "$unbound"),
        other => panic!("expected an invalid path, got {:?}", other),
    }
    match rig.holds(&greater("lives", 2)) {
        Err(EffectError::InvalidPath(path)) => assert_eq!(path, "lives"),
        other => panic!("expected an invalid path, got {:?}", other),
    }
}

#[test]
fn invalid_paths_fail_value_and_flag_operations() {
    let operations = vec![
        add("question.points", 1),
        add("timer.elapsed", 1),
        add("timer.paused", 1),
        subtract("nowhere", 1),
        EffectOperation::Multiply { target: "timer.paused".to_string(), factor: Decimal::from_int(2) },
        EffectOperation::SetValue { target: "cards.slots.max".to_string(), value: Value::Int(3) },
        EffectOperation::SetValue { target: "score.current".to_string(), value: Value::Bool(true) },
        EffectOperation::SetValue { target: "var.a.b".to_string(), value: Value::Int(1) },
        EffectOperation::SetFlag { flag: "score.current".to_string(), value: true },
        EffectOperation::ToggleFlag { flag: "score.current".to_string() },
        EffectOperation::ToggleFlag { flag: "var.unbound".to_string() },
    ];
    for op in operations.iter() {
        let mut rig = Rig::new();
        match rig.run(op) {
            Err(EffectError::InvalidPath(_)) => {}
            other => panic!("expected an invalid path for {:?}, got {:?}", op, other),
        }
        assert_eq!(rig.get("score.current"), Some(Value::Int(10)));
    }
}

#[test]
fn invalid_path_names_the_path() {
    let mut rig = Rig::new();
    match rig.run(&add("invalid.path", 1)) {
        Err(EffectError::InvalidPath(path)) => assert_eq!(path, "invalid.path"),
        other => panic!("expected an invalid path, got {:?}", other),
    }
}

#[test]
fn missing_resources_make_their_paths_invalid() {
    let mut rig = Rig::new();
    rig.world.timer = None;
    rig.world.score = None;
    rig.world.cards = None;
    for path in ["timer.remaining", "timer.paused", "score.current", "cards.slots.occupied"] {
        assert_eq!(rig.get(path), None);
        assert!(matches!(rig.run(&add(path, 1)), Err(EffectError::InvalidPath(_))));
    }
    assert_eq!(rig.get("cards.slots.max"), Some(Value::Int(10)));
}

#[test]
fn fixed_paths_read_the_resources() {
    let mut rig = Rig::new();
    rig.world.cards.as_mut().unwrap().deployed_card_ids =
        vec!["a".to_string(), "b".to_string()];
    assert_eq!(rig.get("cards.slots.occupied"), Some(Value::Int(2)));
    assert_eq!(rig.get("cards.slots.max"), Some(Value::Int(10)));
    assert_eq!(rig.get("score.passing_grade"), Some(Value::Int(20)));
    assert_eq!(rig.get("question.points"), None);
    assert_eq!(
        rig.get("timer.percent_remaining"),
        Some(Value::Float(Decimal::from_int(100)))
    );
    rig.world.timer = Some(GameTimer { timer: Timer::from_seconds(0), paused: false });
    assert_eq!(rig.get("timer.percent_remaining"), Some(Value::Float(Decimal::from_int(0))));
}

#[test]
fn multiply_keeps_the_kind_of_number() {
    let mut rig = Rig::new();
    let half = EffectOperation::Multiply {
        target: "score.current".to_string(),
        factor: Decimal::from_micros(250_000),
    };
    assert!(rig.run(&half).is_ok());
    assert_eq!(rig.get("score.current"), Some(Value::Int(2)));
    assert!(rig.state.set("var.rate", Value::Float(Decimal::from_micros(1_500_000)), &mut rig.world));
    let double = EffectOperation::Multiply {
        target: "var.rate".to_string(),
        factor: Decimal::from_int(2),
    };
    assert!(rig.run(&double).is_ok());
    assert_eq!(rig.get("var.rate"), Some(Value::Float(Decimal::from_int(3))));
}

#[test]
fn set_writes_decimals_as_whole_numbers_into_integer_fields() {
    let mut rig = Rig::new();
    assert!(rig
        .run(&EffectOperation::SetValue {
            target: "score.current".to_string(),
            value: Value::Float(Decimal::from_micros(7_900_000)),
        })
        .is_ok());
    assert_eq!(rig.get("score.current"), Some(Value::Int(7)));
}

#[test]
fn variables_of_the_scope() {
    let mut rig = Rig::new();
    assert!(rig
        .run(&EffectOperation::SetVariable { name: "x".to_string(), value: Value::Int(1) })
        .is_ok());
    assert!(rig
        .run(&EffectOperation::SetVariable { name: "x".to_string(), value: Value::Int(2) })
        .is_ok());
    assert_eq!(rig.context.get_variable("x"), Some(&Value::Int(2)));
    assert_eq!(rig.context.variables.len(), 1);
    assert!(rig.run(&EffectOperation::GetVariable { name: "unbound".to_string() }).is_ok());
    assert!(rig.run(&EffectOperation::GetVariable { name: "x".to_string() }).is_ok());
    assert_eq!(rig.context.get_variable("unbound"), None);
}

#[test]
fn schedule_operation_does_nothing() {
    let mut rig = Rig::new();
    let op = EffectOperation::ScheduleOperation {
        delay_seconds: Decimal::from_micros(1_500_000),
        operations: vec![add("score.current", 1), add("nowhere", 1)],
    };
    assert!(rig.run(&op).is_ok());
    assert_eq!(rig.get("score.current"), Some(Value::Int(10)));
}

#[test]
fn listeners_accumulate_and_run_in_order() {
    let mut rig = Rig::new();
    for factor in [2, 3] {
        assert!(rig
            .run(&EffectOperation::OnEvent {
                event: "grow".to_string(),
                operations: vec![
                    EffectOperation::Multiply {
                        target: "score.current".to_string(),
                        factor: Decimal::from_int(factor),
                    },
                    add("score.current", 1),
                ],
            })
            .is_ok());
    }
    assert_eq!(rig.executor.get_event_listeners("grow").unwrap().len(), 2);
    assert!(rig.executor.get_event_listeners("other").is_none());
    assert!(rig.run(&EffectOperation::EmitEvent { event: "grow".to_string(), data: None }).is_ok());
    assert_eq!(rig.get("score.current"), Some(Value::Int((10 * 2 + 1) * 3 + 1)));
    rig.executor.clear_listeners();
    assert!(rig.executor.get_event_listeners("grow").is_none());
    assert!(rig.run(&EffectOperation::EmitEvent { event: "grow".to_string(), data: None }).is_ok());
    assert_eq!(rig.get("score.current"), Some(Value::Int(64)));
}

#[test]
fn emitted_data_are_bound_behind_event() {
    let mut rig = Rig::new();
    assert!(rig
        .run(&EffectOperation::OnEvent {
            event: "scored".to_string(),
            operations: vec![EffectOperation::IfCondition {
                condition: greater("$event.points", 2),
                then_: vec![add("score.current", 5)],
                else_: None,
            }],
        })
        .is_ok());
    let emit = |points: i32| EffectOperation::EmitEvent {
        event: "scored".to_string(),
        data: Some(vec![
            ("points".to_string(), Value::Int(points)),
            ("by".to_string(), Value::String("ana".to_string())),
        ]),
    };
    assert!(rig.run(&emit(3)).is_ok());
    assert_eq!(rig.get("score.current"), Some(Value::Int(15)));
    assert_eq!(rig.context.get_variable("event.points"), Some(&Value::Int(3)));
    assert_eq!(
        rig.context.get_variable("event.by"),
        Some(&Value::String("ana".to_string()))
    );
    assert!(rig.run(&emit(1)).is_ok());
    assert_eq!(rig.get("score.current"), Some(Value::Int(15)));
    assert_eq!(rig.context.get_variable("event.points"), Some(&Value::Int(1)));
}

#[test]
fn emitted_data_are_bound_without_listeners() {
    let mut rig = Rig::new();
    assert!(rig
        .run(&EffectOperation::EmitEvent {
            event: "unheard".to_string(),
            data: Some(vec![("n".to_string(), Value::Int(1))]),
        })
        .is_ok());
    assert_eq!(rig.context.get_variable("event.n"), Some(&Value::Int(1)));
}

#[test]
fn listeners_registered_while_an_event_runs_wait_for_the_next() {
    let mut rig = Rig::new();
    assert!(rig
        .run(&EffectOperation::OnEvent {
            event: "tick".to_string(),
            operations: vec![
                add("score.current", 1),
                EffectOperation::OnEvent {
                    event: "tick".to_string(),
                    operations: vec![add("score.current", 100)],
                },
            ],
        })
        .is_ok());
    let emit = EffectOperation::EmitEvent { event: "tick".to_string(), data: None };
    assert!(rig.run(&emit).is_ok());
    assert_eq!(rig.get("score.current"), Some(Value::Int(11)));
    assert!(rig.run(&emit).is_ok());
    assert_eq!(rig.get("score.current"), Some(Value::Int(112)));
}

#[test]
fn an_event_that_emits_itself_is_stopped() {
    let mut rig = Rig::new();
    assert!(rig
        .run(&EffectOperation::OnEvent {
            event: "again".to_string(),
            operations: vec![
                add("score.current", 1),
                EffectOperation::EmitEvent { event: "again".to_string(), data: None },
            ],
        })
        .is_ok());
    match rig.run(&EffectOperation::EmitEvent { event: "again".to_string(), data: None }) {
        Err(EffectError::OperationError(text)) => assert_eq!(text, "Event depth limit reached"),
        other => panic!("expected an operation error, got {:?}", other),
    }
    assert_eq!(
        rig.get("score.current"),
        Some(Value::Int(10 + cgq::semantics::MAX_EVENT_DEPTH as i32))
    );
}

#[test]
fn an_effect_stops_at_its_first_failure_without_rollback() {
    let mut rig = Rig::new();
    let effect = CardEffect {
        id: "e".to_string(),
        name: None,
        description: None,
        operations: vec![add("score.current", 1), add("nowhere", 1), add("score.current", 100)],
        timing: cgq::effect::default_timing(),
        priority: cgq::effect::default_priority(),
        intercepts: None,
    };
    assert_eq!(effect.timing, EffectTiming::After);
    assert_eq!(effect.priority, 100);
    let result =
        rig.executor.execute_effect(&effect, &mut rig.context, &mut rig.state, &mut rig.world);
    assert!(matches!(result, Err(EffectError::InvalidPath(_))));
    assert_eq!(rig.get("score.current"), Some(Value::Int(11)));
}

#[test]
fn a_failure_inside_a_body_ends_the_enclosing_operations() {
    let mut rig = Rig::new();
    rig.set_collection("n", vec![Value::Int(1), Value::Int(2), Value::Int(3)]);
    let op = EffectOperation::ForEach {
        collection: "n".to_string(),
        operations: vec![
            add("score.current", 1),
            EffectOperation::IfCondition {
                condition: greater("$index", 0),
                then_: vec![add("nowhere", 1)],
                else_: None,
            },
            add("score.current", 10),
        ],
    };
    assert!(matches!(rig.run(&op), Err(EffectError::InvalidPath(_))));
    assert_eq!(rig.get("score.current"), Some(Value::Int(22)));
}

#[test]
fn error_messages() {
    assert_eq!(EffectError::InvalidPath("a.b".to_string()).message(), "Invalid state path: a.b");
    assert_eq!(EffectError::InvalidValue("x".to_string()).message(), "Invalid value: x");
    assert_eq!(EffectError::PredicateError("p".to_string()).message(), "Predicate error: p");
    assert_eq!(EffectError::OperationError("o".to_string()).message(), "Operation error: o");
    assert_eq!(EffectError::MaxIterationsReached.message(), "Maximum iterations reached");
}

#[test]
fn operation_groups_refuse_other_operations() {
    let mut rig = Rig::new();
    let op = EffectOperation::GetVariable { name: "x".to_string() };
    assert!(value_ops::execute_value_operation(&op, &mut rig.state, &mut rig.world).is_none());
    assert!(flag_ops::execute_flag_operation(&op, &mut rig.state, &mut rig.world).is_none());
    assert!(collection_ops::execute_collection_operation(&op, &mut rig.context, &mut rig.world)
        .is_none());
    assert!(event_ops::execute_event_operation(
        &mut rig.executor,
        &op,
        &mut rig.context,
        &mut rig.state,
        &mut rig.world
    )
    .is_none());
    assert!(control_flow::execute_control_flow_operation(
        &mut rig.executor,
        &op,
        &mut rig.context,
        &mut rig.state,
        &mut rig.world
    )
    .is_none());
    assert!(variable_ops::execute_variable_operation(&op, &mut rig.context).is_some());
    assert!(variable_ops::execute_variable_operation(&add("score.current", 1), &mut rig.context)
        .is_none());
    assert!(matches!(
        value_ops::execute_value_operation(&add("score.current", 1), &mut rig.state, &mut rig.world),
        Some(Ok(()))
    ));
}
