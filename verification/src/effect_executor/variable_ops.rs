//! Operations on the variables of the scope.

use crate::effect::{EffectContext, EffectOperation};
use crate::error::EffectResult;
use crate::semantics::{is_variable_op, variable_op_scope};
use vstd::prelude::*;

verus! {

/// Runs `operation` if it binds or looks up a variable; hands back nothing,
/// and changes nothing, if it is another. Binding always succeeds; a lookup
/// changes nothing, whether the variable is bound or not.
pub fn execute_variable_operation(operation: &EffectOperation, context: &mut EffectContext) -> (r:
    Option<EffectResult>)
    ensures
        match r {
            Some(res) => is_variable_op(operation@) && res is Ok && final(context)@
                == variable_op_scope(operation@, old(context)@),
            None => !is_variable_op(operation@) && *final(context) == *old(context),
        },
{
    match operation {
        EffectOperation::SetVariable { name, value } => {
            context.set_variable(name.clone(), value.duplicate());
            Some(Ok(()))
        },
        EffectOperation::GetVariable { name } => Some(Ok(())),
        _ => None,
    }
}

} // verus!
