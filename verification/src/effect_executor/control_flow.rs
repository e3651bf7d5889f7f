//! Operations that run bodies of operations: by a condition, in a loop, or
//! once for each item of a collection.

use crate::effect::{operations_view, EffectContext, EffectOperation, Predicate};
use crate::effect_executor::{machine, EffectExecutor};
use crate::error::{outcome_view, EffectError, EffectResult, ErrorView};
use crate::game_state::{count_as_i32, GameState};
use crate::resources::World;
use crate::semantics::{
    between, each_runs, is_control_flow_op, list_runs, loop_runs, runs, Machine, Outcome,
    DEFAULT_MAX_ITERATIONS, MAX_EVENT_DEPTH,
};
use crate::value::{values_view, Value};
use vstd::prelude::*;

verus! {

/// Runs `operation` if it is a condition, a loop or an iteration; hands back
/// nothing, and changes nothing, if it is another.
pub fn execute_control_flow_operation(
    executor: &mut EffectExecutor,
    operation: &EffectOperation,
    context: &mut EffectContext,
    state: &mut GameState,
    world: &mut World,
) -> (r: Option<EffectResult>)
    ensures
        match r {
            Some(res) => is_control_flow_op(operation@) && runs(
                operation@,
                machine(*old(executor), *old(context), *old(state), *old(world)),
                machine(*final(executor), *final(context), *final(state), *final(world)),
                outcome_view(res),
                MAX_EVENT_DEPTH as nat,
            ),
            None => {
                &&& !is_control_flow_op(operation@)
                &&& *final(executor) == *old(executor)
                &&& *final(context) == *old(context)
                &&& *final(state) == *old(state)
                &&& *final(world) == *old(world)
            },
        },
{
    run_control_flow_operation(executor, operation, context, state, world, MAX_EVENT_DEPTH)
}

/// As [`execute_control_flow_operation`], with `depth` levels of emitted
/// events below the operation.
pub fn run_control_flow_operation(
    executor: &mut EffectExecutor,
    operation: &EffectOperation,
    context: &mut EffectContext,
    state: &mut GameState,
    world: &mut World,
    depth: usize,
) -> (r: Option<EffectResult>)
    ensures
        match r {
            Some(res) => is_control_flow_op(operation@) && runs(
                operation@,
                machine(*old(executor), *old(context), *old(state), *old(world)),
                machine(*final(executor), *final(context), *final(state), *final(world)),
                outcome_view(res),
                depth as nat,
            ),
            None => {
                &&& !is_control_flow_op(operation@)
                &&& *final(executor) == *old(executor)
                &&& *final(context) == *old(context)
                &&& *final(state) == *old(state)
                &&& *final(world) == *old(world)
            },
        },
    decreases depth, operation, 0nat,
{
    match operation {
        EffectOperation::IfCondition { condition, then_, else_ } => {
            match executor.evaluate_predicate(condition, context, state, world) {
                Err(e) => Some(Err(e)),
                Ok(true) => Some(executor.run_list(then_, context, state, world, depth)),
                Ok(false) => match else_ {
                    Some(ops) => Some(executor.run_list(ops, context, state, world, depth)),
                    None => Some(Ok(())),
                },
            }
        },
        EffectOperation::While { condition, operations, max_iterations } => {
            let max: usize = match max_iterations {
                Some(m) => *m,
                None => DEFAULT_MAX_ITERATIONS,
            };
            Some(execute_while(executor, condition, operations, max, context, state, world, depth))
        },
        EffectOperation::ForEach { collection, operations } => {
            let items: Vec<Value> = match &world.collections {
                Some(collections) => match collections.get(collection.as_str()) {
                    Some(found) => found.to_vec(),
                    None => Vec::new(),
                },
                None => {
                    return Some(
                        Err(
                            EffectError::OperationError(
                                "CollectionManager not available".to_string(),
                            ),
                        ),
                    );
                },
            };
            Some(execute_for_each(executor, &items, operations, context, state, world, depth))
        },
        _ => None,
    }
}

/// Runs `body` as long as `condition` holds. The condition is asked before
/// each run; where it holds after `max` runs, the loop fails and what the
/// runs did stays done.
pub fn execute_while(
    executor: &mut EffectExecutor,
    condition: &Predicate,
    body: &Vec<EffectOperation>,
    max: usize,
    context: &mut EffectContext,
    state: &mut GameState,
    world: &mut World,
    depth: usize,
) -> (r: EffectResult)
    ensures
        loop_runs(
            condition@,
            operations_view(*body),
            max as nat,
            0,
            machine(*old(executor), *old(context), *old(state), *old(world)),
            machine(*final(executor), *final(context), *final(state), *final(world)),
            outcome_view(r),
            depth as nat,
        ),
    decreases depth, body, 1nat,
{
    let ghost start = machine(*executor, *context, *state, *world);
    let ghost c = condition@;
    let ghost b = operations_view(*body);
    let mut iterations: usize = 0;
    loop
        invariant
            iterations <= max,
            c == condition@,
            b == operations_view(*body),
            start == machine(*old(executor), *old(context), *old(state), *old(world)),
            forall|after: Machine, result: Outcome| #[trigger]
                loop_runs(
                    c,
                    b,
                    max as nat,
                    iterations as nat,
                    machine(*executor, *context, *state, *world),
                    after,
                    result,
                    depth as nat,
                ) ==> loop_runs(c, b, max as nat, 0, start, after, result, depth as nat),
        decreases max - iterations,
    {
        let ghost cur = machine(*executor, *context, *state, *world);
        match executor.evaluate_predicate(condition, context, state, world) {
            Err(e) => {
                proof {
                    assert(loop_runs(
                        c,
                        b,
                        max as nat,
                        iterations as nat,
                        cur,
                        cur,
                        Err::<(), ErrorView>(e@),
                        depth as nat,
                    ));
                }
                return Err(e);
            },
            Ok(false) => {
                proof {
                    assert(loop_runs(
                        c,
                        b,
                        max as nat,
                        iterations as nat,
                        cur,
                        cur,
                        Ok::<(), ErrorView>(()),
                        depth as nat,
                    ));
                }
                return Ok(());
            },
            Ok(true) => {},
        }
        if iterations >= max {
            proof {
                assert(loop_runs(
                    c,
                    b,
                    max as nat,
                    iterations as nat,
                    cur,
                    cur,
                    Err::<(), ErrorView>(ErrorView::MaxIterationsReached),
                    depth as nat,
                ));
            }
            return Err(EffectError::MaxIterationsReached);
        }
        let r = executor.run_list(body, context, state, world, depth);
        let ghost mid = machine(*executor, *context, *state, *world);
        let ghost rv = outcome_view(r);
        proof {
            assert(list_runs(b, 0, cur, mid, rv, depth as nat));
            assert(between(mid, rv));
        }
        match r {
            Err(e) => {
                proof {
                    assert(loop_runs(
                        c,
                        b,
                        max as nat,
                        iterations as nat,
                        cur,
                        mid,
                        rv,
                        depth as nat,
                    ));
                }
                return Err(e);
            },
            Ok(_) => {},
        }
        let ghost done = iterations as nat;
        iterations += 1;
        proof {
            assert forall|after: Machine, result: Outcome| #[trigger]
                loop_runs(
                    c,
                    b,
                    max as nat,
                    iterations as nat,
                    mid,
                    after,
                    result,
                    depth as nat,
                ) implies loop_runs(c, b, max as nat, 0, start, after, result, depth as nat) by {
                assert(loop_runs(c, b, max as nat, done, cur, after, result, depth as nat));
            }
        }
    }
}

/// Runs `body` once for each of `items`, in order, with the item bound to
/// the variable `item` and its position to `index`.
pub fn execute_for_each(
    executor: &mut EffectExecutor,
    items: &Vec<Value>,
    body: &Vec<EffectOperation>,
    context: &mut EffectContext,
    state: &mut GameState,
    world: &mut World,
    depth: usize,
) -> (r: EffectResult)
    ensures
        each_runs(
            values_view(items@),
            operations_view(*body),
            0,
            machine(*old(executor), *old(context), *old(state), *old(world)),
            machine(*final(executor), *final(context), *final(state), *final(world)),
            outcome_view(r),
            depth as nat,
        ),
    decreases depth, body, 1nat,
{
    let ghost start = machine(*executor, *context, *state, *world);
    let ghost all = values_view(items@);
    let ghost b = operations_view(*body);
    let mut i: usize = 0;
    while i < items.len()
        invariant
            i <= items.len(),
            all == values_view(items@),
            b == operations_view(*body),
            start == machine(*old(executor), *old(context), *old(state), *old(world)),
            forall|after: Machine, result: Outcome| #[trigger]
                each_runs(
                    all,
                    b,
                    i as int,
                    machine(*executor, *context, *state, *world),
                    after,
                    result,
                    depth as nat,
                ) ==> each_runs(all, b, 0, start, after, result, depth as nat),
        decreases items.len() - i,
    {
        let ghost cur = machine(*executor, *context, *state, *world);
        context.set_variable("item".to_string(), items[i].duplicate());
        context.set_variable("index".to_string(), Value::Int(count_as_i32(i)));
        let ghost bound = machine(*executor, *context, *state, *world);
        let r = executor.run_list(body, context, state, world, depth);
        let ghost mid = machine(*executor, *context, *state, *world);
        let ghost rv = outcome_view(r);
        proof {
            assert(list_runs(b, 0, bound, mid, rv, depth as nat));
            assert(between(mid, rv));
        }
        match r {
            Err(e) => {
                proof {
                    assert(each_runs(all, b, i as int, cur, mid, rv, depth as nat));
                }
                return Err(e);
            },
            Ok(_) => {
                proof {
                    assert forall|after: Machine, result: Outcome| #[trigger]
                        each_runs(all, b, i + 1, mid, after, result, depth as nat) implies each_runs(
                        all,
                        b,
                        0,
                        start,
                        after,
                        result,
                        depth as nat,
                    ) by {
                        assert(each_runs(all, b, i as int, cur, after, result, depth as nat));
                    }
                }
            },
        }
        i += 1;
    }
    proof {
        let end = machine(*executor, *context, *state, *world);
        assert(each_runs(all, b, i as int, end, end, Ok::<(), ErrorView>(()), depth as nat));
    }
    Ok(())
}

} // verus!
