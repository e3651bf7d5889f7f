//! Operations that write a flag.

use crate::effect::EffectOperation;
use crate::error::{outcome_view, EffectError, EffectResult};
use crate::game_state::GameState;
use crate::resources::World;
use crate::semantics::{is_flag_op, state_op_runs};
use vstd::prelude::*;

verus! {

/// Runs `operation` if it sets or inverts a flag; hands back nothing, and
/// changes nothing, if it is another. A write that the state refuses fails
/// with an invalid path.
pub fn execute_flag_operation(
    operation: &EffectOperation,
    state: &mut GameState,
    world: &mut World,
) -> (r: Option<EffectResult>)
    ensures
        match r {
            Some(res) => is_flag_op(operation@) && state_op_runs(
                operation@,
                old(state)@,
                old(world)@,
                final(state)@,
                final(world)@,
                outcome_view(res),
            ),
            None => {
                &&& !is_flag_op(operation@)
                &&& *final(state) == *old(state)
                &&& *final(world) == *old(world)
            },
        },
{
    match operation {
        EffectOperation::SetFlag { flag, value } => {
            if !state.set_flag(flag.as_str(), *value, world) {
                return Some(Err(EffectError::InvalidPath(flag.clone())));
            }
            Some(Ok(()))
        },
        EffectOperation::ToggleFlag { flag } => {
            if !state.toggle_flag(flag.as_str(), world) {
                return Some(Err(EffectError::InvalidPath(flag.clone())));
            }
            Some(Ok(()))
        },
        _ => None,
    }
}

} // verus!
