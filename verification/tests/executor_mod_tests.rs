use cgq::collections::{Collection, CollectionManager};
use cgq::effect::{EffectContext, EffectOperation, Predicate};
use cgq::effect_executor::EffectExecutor;
use cgq::game_state::GameState;
use cgq::resources::{GameTimer, Score, Timer, World};
use cgq::value::Value;

#[test]
fn mod_test_add_operation() {
    let mut world = World::new();
    world.timer = Some(GameTimer { timer: Timer::from_seconds(300), paused: false });

    let mut state = GameState::new();
    let mut executor = EffectExecutor::new();
    let mut context = EffectContext::new("test_card".to_string(), "test_effect".to_string());

    let operation = EffectOperation::Add {
        target: "timer.remaining".to_string(),
        amount: 60,
    };

    assert!(executor.execute_operation(&operation, &mut context, &mut state, &mut world).is_ok());
    if let Some(Value::Int(remaining)) = state.get("timer.remaining", &world) {
        assert!(remaining >= 359 && remaining <= 361);
    }
}

#[test]
fn mod_test_if_condition() {
    let mut world = World::new();
    world.timer = Some(GameTimer { timer: Timer::from_seconds(300), paused: false });

    let mut state = GameState::new();
    let mut executor = EffectExecutor::new();
    let mut context = EffectContext::new("test_card".to_string(), "test_effect".to_string());

    let operation = EffectOperation::IfCondition {
        condition: Predicate::GreaterThan {
            field: "timer.remaining".to_string(),
            value: Value::Int(200),
        },
        then_: vec![
            EffectOperation::Add {
                target: "timer.remaining".to_string(),
                amount: 60,
            }
        ],
        else_: Some(vec![
            EffectOperation::Subtract {
                target: "timer.remaining".to_string(),
                amount: 60,
            }
        ]),
    };

    assert!(executor.execute_operation(&operation, &mut context, &mut state, &mut world).is_ok());
    // Condition is true (300 > 200), so should add 60
    if let Some(Value::Int(remaining)) = state.get("timer.remaining", &world) {
        assert!(remaining >= 359 && remaining <= 361);
    }
}

#[test]
fn mod_test_variables() {
    let mut world = World::new();
    let mut state = GameState::new();
    let mut executor = EffectExecutor::new();
    let mut context = EffectContext::new("test_card".to_string(), "test_effect".to_string());

    // Set variable
    let set_var = EffectOperation::SetVariable {
        name: "my_value".to_string(),
        value: Value::Int(42),
    };
    assert!(executor.execute_operation(&set_var, &mut context, &mut state, &mut world).is_ok());

    // Verify variable is set
    assert_eq!(context.get_variable("my_value"), Some(&Value::Int(42)));
}

#[test]
fn mod_test_collection_operations() {
    let mut world = World::new();

    // Initialize collection manager with test data
    let mut collections = CollectionManager::new();
    let mut collection = Collection::new();

    // Add test items
    for i in 1..=5 {
        let item = vec![
            ("id".to_string(), Value::Int(i)),
            ("value".to_string(), Value::Int(i * 10)),
        ];
        collection.append(Value::Object(item));
    }

    collections.set("test.items", collection);
    world.collections = Some(collections);

    let mut state = GameState::new();
    let mut executor = EffectExecutor::new();
    let mut context = EffectContext::new("test_card".to_string(), "test_effect".to_string());

    // Test Filter operation
    let filter_op = EffectOperation::Filter {
        target: "test.items".to_string(),
        predicate: Predicate::GreaterThan {
            field: "value".to_string(),
            value: Value::Int(25),
        },
    };
    assert!(executor.execute_operation(&filter_op, &mut context, &mut state, &mut world).is_ok());

    // Verify filtered collection
    let collections = world.collections.as_ref().unwrap();
    let collection = collections.get("test.items").unwrap();
    assert_eq!(collection.len(), 3); // Items with value > 25: 30, 40, 50

    // Test Remove operation
    let remove_op = EffectOperation::Remove {
        target: "test.items".to_string(),
        count: 1,
        filter: None,
        random: Some(false),
    };
    assert!(executor.execute_operation(&remove_op, &mut context, &mut state, &mut world).is_ok());

    // Verify removed
    let collections = world.collections.as_ref().unwrap();
    let collection = collections.get("test.items").unwrap();
    assert_eq!(collection.len(), 2);

    // Test Append operation
    let new_item = vec![
        ("id".to_string(), Value::Int(99)),
        ("value".to_string(), Value::Int(999)),
    ];

    let append_op = EffectOperation::Append {
        target: "test.items".to_string(),
        item: Value::Object(new_item),
    };
    assert!(executor.execute_operation(&append_op, &mut context, &mut state, &mut world).is_ok());

    // Verify appended
    let collections = world.collections.as_ref().unwrap();
    let collection = collections.get("test.items").unwrap();
    assert_eq!(collection.len(), 3);
}

#[test]
fn mod_test_for_each_operation() {
    let mut world = World::new();
    world.score = Some(Score {
        current: 0,
        passing_grade: 10,
        correct_answers: 0,
        total_answered: 0,
    });

    // Create collection with numbers
    let mut collections = CollectionManager::new();
    let mut collection = Collection::new();
    collection.append(Value::Int(5));
    collection.append(Value::Int(10));
    collection.append(Value::Int(15));
    collections.set("numbers", collection);
    world.collections = Some(collections);

    let mut state = GameState::new();
    let mut executor = EffectExecutor::new();
    let mut context = EffectContext::new("test_card".to_string(), "test_effect".to_string());

    // ForEach that adds each number to score
    let for_each_op = EffectOperation::ForEach {
        collection: "numbers".to_string(),
        operations: vec![
            // This would normally add $item to score, but we'll just verify the loop runs
            EffectOperation::SetVariable {
                name: "last_item".to_string(),
                value: Value::Int(0), // Will be overwritten
            },
        ],
    };

    assert!(executor.execute_operation(&for_each_op, &mut context, &mut state, &mut world).is_ok());

    // Verify the loop ran 3 times (item variable should be set to last item)
    assert!(context.get_variable("item").is_some());
}
