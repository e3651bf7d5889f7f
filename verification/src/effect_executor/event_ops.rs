//! Operations that register listeners and emit events.

use crate::effect::{duplicate_operations, ContextView, EffectContext, EffectOperation};
use crate::effect_executor::{machine, EffectExecutor};
use crate::error::{outcome_view, EffectError, EffectResult};
use crate::game_state::GameState;
use crate::resources::World;
use crate::semantics::{
    is_event_op, lemma_event_data_none, lemma_event_data_step, runs, with_event_data,
    MAX_EVENT_DEPTH,
};
use crate::value::{entries_view, table_view, Value};
use vstd::prelude::*;
use vstd::string::*;

verus! {

/// Runs `operation` if it registers a listener, emits an event or schedules
/// operations; hands back nothing, and changes nothing, if it is another.
pub fn execute_event_operation(
    executor: &mut EffectExecutor,
    operation: &EffectOperation,
    context: &mut EffectContext,
    state: &mut GameState,
    world: &mut World,
) -> (r: Option<EffectResult>)
    ensures
        match r {
            Some(res) => is_event_op(operation@) && runs(
                operation@,
                machine(*old(executor), *old(context), *old(state), *old(world)),
                machine(*final(executor), *final(context), *final(state), *final(world)),
                outcome_view(res),
                MAX_EVENT_DEPTH as nat,
            ),
            None => {
                &&& !is_event_op(operation@)
                &&& *final(executor) == *old(executor)
                &&& *final(context) == *old(context)
                &&& *final(state) == *old(state)
                &&& *final(world) == *old(world)
            },
        },
{
    run_event_operation(executor, operation, context, state, world, MAX_EVENT_DEPTH)
}

/// Binds each datum of an event in the scope, under its key behind `event.`.
pub fn bind_event_data(context: &mut EffectContext, data: &Vec<(String, Value)>)
    ensures
        final(context)@ == (ContextView {
            variables: with_event_data(old(context)@.variables, table_view(data@)),
            ..old(context)@
        }),
{
    let ghost vars = context@.variables;
    proof {
        lemma_event_data_none(vars);
    }
    let mut i: usize = 0;
    while i < data.len()
        invariant
            i <= data.len(),
            vars == old(context)@.variables,
            context@ == (ContextView {
                variables: with_event_data(vars, entries_view(data@, i as nat)),
                ..old(context)@
            }),
        decreases data.len() - i,
    {
        proof {
            lemma_event_data_step(
                vars,
                entries_view(data@, i as nat),
                data[i as int].0@,
                data[i as int].1@,
            );
        }
        let name = String::from_str("event.").concat(data[i].0.as_str());
        context.set_variable(name, data[i].1.duplicate());
        i += 1;
    }
}

/// As [`execute_event_operation`], with `depth` levels of emitted events
/// below the operation.
pub fn run_event_operation(
    executor: &mut EffectExecutor,
    operation: &EffectOperation,
    context: &mut EffectContext,
    state: &mut GameState,
    world: &mut World,
    depth: usize,
) -> (r: Option<EffectResult>)
    ensures
        match r {
            Some(res) => is_event_op(operation@) && runs(
                operation@,
                machine(*old(executor), *old(context), *old(state), *old(world)),
                machine(*final(executor), *final(context), *final(state), *final(world)),
                outcome_view(res),
                depth as nat,
            ),
            None => {
                &&& !is_event_op(operation@)
                &&& *final(executor) == *old(executor)
                &&& *final(context) == *old(context)
                &&& *final(state) == *old(state)
                &&& *final(world) == *old(world)
            },
        },
    decreases depth, operation, 0nat,
{
    match operation {
        EffectOperation::OnEvent { event, operations } => {
            executor.register_event_listener(event.clone(), duplicate_operations(operations));
            Some(Ok(()))
        },
        EffectOperation::EmitEvent { event, data } => {
            match data {
                Some(d) => {
                    bind_event_data(context, d);
                },
                None => {},
            }
            match executor.get_event_listeners(event.as_str()) {
                Some(bodies) => {
                    if bodies.len() == 0 {
                        Some(Ok(()))
                    } else if depth == 0 {
                        Some(
                            Err(
                                EffectError::OperationError(
                                    "Event depth limit reached".to_string(),
                                ),
                            ),
                        )
                    } else {
                        Some(executor.run_bodies(&bodies, context, state, world, depth - 1))
                    }
                },
                None => Some(Ok(())),
            }
        },
        EffectOperation::ScheduleOperation { delay_seconds, operations } => Some(Ok(())),
        _ => None,
    }
}

} // verus!
