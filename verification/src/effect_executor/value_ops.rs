//! Operations that write a number or a value at a path.

use crate::effect::EffectOperation;
use crate::error::{outcome_view, EffectError, EffectResult};
use crate::game_state::GameState;
use crate::resources::World;
use crate::semantics::{is_value_op, state_op_runs};
use vstd::prelude::*;

verus! {

/// Runs `operation` if it is an addition, a subtraction, a multiplication or
/// a plain write; hands back nothing, and changes nothing, if it is another.
/// A write that the state refuses fails with an invalid path.
pub fn execute_value_operation(
    operation: &EffectOperation,
    state: &mut GameState,
    world: &mut World,
) -> (r: Option<EffectResult>)
    ensures
        match r {
            Some(res) => is_value_op(operation@) && state_op_runs(
                operation@,
                old(state)@,
                old(world)@,
                final(state)@,
                final(world)@,
                outcome_view(res),
            ),
            None => {
                &&& !is_value_op(operation@)
                &&& *final(state) == *old(state)
                &&& *final(world) == *old(world)
            },
        },
{
    match operation {
        EffectOperation::Add { target, amount } => {
            if !state.add(target.as_str(), *amount, world) {
                return Some(Err(EffectError::InvalidPath(target.clone())));
            }
            Some(Ok(()))
        },
        EffectOperation::Subtract { target, amount } => {
            if !state.subtract(target.as_str(), *amount, world) {
                return Some(Err(EffectError::InvalidPath(target.clone())));
            }
            Some(Ok(()))
        },
        EffectOperation::Multiply { target, factor } => {
            if !state.multiply(target.as_str(), *factor, world) {
                return Some(Err(EffectError::InvalidPath(target.clone())));
            }
            Some(Ok(()))
        },
        EffectOperation::SetValue { target, value } => {
            if !state.set(target.as_str(), value.duplicate(), world) {
                return Some(Err(EffectError::InvalidPath(target.clone())));
            }
            Some(Ok(()))
        },
        _ => None,
    }
}

} // verus!
