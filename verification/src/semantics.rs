//! What running an operation means.
//!
//! The meaning is given over the contents of the four things an operation
//! can touch: the scope of the run, the variables of the game state, the
//! host's resources and the registered listeners. A predicate is a function
//! of them. An operation is a relation between them before and after,
//! because a random removal can end in more than one way.

use crate::collections::{
    compare_numbers, filter_items, inserted, picks_from_end, take_picks, valid_picks,
};
use crate::effect::{Comparison, ContextView, OperationView, PredicateView};
use crate::error::ErrorView;
use crate::game_state::{
    low_bits, state_add, state_get, state_multiply, state_set, state_subtract, state_toggle,
};
use crate::resources::WorldView;
use crate::value::{numeric_micros, ValueView};
use vstd::prelude::*;

verus! {

/// How deep emitted events may nest: a listener that emits an event is one
/// level below the emission that runs it.
pub const MAX_EVENT_DEPTH: usize = 32;

/// How often a loop may run its body when it names no bound.
pub const DEFAULT_MAX_ITERATIONS: usize = 100;

/// Everything an operation can read or change.
pub struct Machine {
    /// The scope of the run.
    pub context: ContextView,
    /// The variables of the game state.
    pub state: Map<Seq<char>, ValueView>,
    /// The host's resources.
    pub world: WorldView,
    /// The bodies registered for each event, in the order of registration.
    pub listeners: Map<Seq<char>, Seq<Seq<OperationView>>>,
}

/// The outcome of an operation.
pub type Outcome = Result<(), ErrorView>;

/// The error of an operation that needs the collections of a host that has
/// none.
pub open spec fn no_collections() -> ErrorView {
    ErrorView::OperationError("CollectionManager not available"@)
}

/// The error of an emission below the deepest level allowed.
pub open spec fn too_deep() -> ErrorView {
    ErrorView::OperationError("Event depth limit reached"@)
}

/// The value that a field of a predicate stands for: the variable of the
/// scope that it names behind a `$`, if that is bound, else what it reads as
/// a path.
pub open spec fn resolve(m: Machine, field: Seq<char>) -> Option<ValueView> {
    if field.len() > 0 && field[0] == '$' && m.context.variables.contains_key(field.skip(1)) {
        Some(m.context.variables[field.skip(1)])
    } else {
        state_get(m.state, m.world, field)
    }
}

/// How a value of the state compares with a value. Values that are not both
/// numbers are in no order.
pub open spec fn state_compare(how: Comparison, current: ValueView, value: ValueView) -> bool {
    match how {
        Comparison::Equals => current == value,
        Comparison::NotEquals => current != value,
        _ => match (numeric_micros(current), numeric_micros(value)) {
            (Some(a), Some(b)) => compare_numbers(how, a, b),
            _ => false,
        },
    }
}

/// What a predicate says of the state. Predicates on tags, types and
/// membership, and expressions, are never true here.
pub open spec fn state_verdict(p: PredicateView, m: Machine) -> Result<bool, ErrorView>
    decreases p,
{
    match p {
        PredicateView::Compare { how, field, value } => match resolve(m, field) {
            Some(current) => Ok(state_compare(how, current, value)),
            None => Err(ErrorView::InvalidPath(field)),
        },
        PredicateView::HasTag { tag } => Ok(false),
        PredicateView::IsType { card_type } => Ok(false),
        PredicateView::Contains { field, value } => Ok(false),
        PredicateView::And { predicates } => state_all(predicates, m, 0),
        PredicateView::Or { predicates } => state_any(predicates, m, 0),
        PredicateView::Not { predicate } => match state_verdict(*predicate, m) {
            Ok(b) => Ok(!b),
            Err(e) => Err(e),
        },
        PredicateView::Expression { expr } => Ok(false),
    }
}

/// Whether all predicates from position `from` on hold: they are asked in
/// order, up to the first that fails or does not hold.
pub open spec fn state_all(ps: Seq<PredicateView>, m: Machine, from: int) -> Result<
    bool,
    ErrorView,
>
    decreases ps, ps.len() - from,
{
    if from < 0 || from >= ps.len() {
        Ok(true)
    } else {
        match state_verdict(ps[from], m) {
            Ok(true) => state_all(ps, m, from + 1),
            other => other,
        }
    }
}

/// Whether some predicate from position `from` on holds: they are asked in
/// order, up to the first that fails or holds.
pub open spec fn state_any(ps: Seq<PredicateView>, m: Machine, from: int) -> Result<
    bool,
    ErrorView,
>
    decreases ps, ps.len() - from,
{
    if from < 0 || from >= ps.len() {
        Ok(false)
    } else {
        match state_verdict(ps[from], m) {
            Ok(false) => state_any(ps, m, from + 1),
            other => other,
        }
    }
}

/// The scope with a variable bound.
pub open spec fn scope_with(ctx: ContextView, name: Seq<char>, value: ValueView) -> ContextView {
    ContextView { variables: ctx.variables.insert(name, value), ..ctx }
}

/// The machine with a variable of the scope bound.
pub open spec fn with_variable(m: Machine, name: Seq<char>, value: ValueView) -> Machine {
    Machine { context: scope_with(m.context, name, value), ..m }
}

/// The resources with the collections replaced.
pub open spec fn world_with(world: WorldView, cs: Map<Seq<char>, Seq<ValueView>>) -> WorldView {
    WorldView { collections: Some(cs), ..world }
}

/// The name under which the datum `key` of an event is bound in the scope.
pub open spec fn event_key(key: Seq<char>) -> Seq<char> {
    "event."@ + key
}

/// The variables of a scope after the data of an event have been bound in
/// it, each under its key behind `event.`.
pub open spec fn with_event_data(
    vars: Map<Seq<char>, ValueView>,
    data: Map<Seq<char>, ValueView>,
) -> Map<Seq<char>, ValueView> {
    Map::new(
        |q: Seq<char>|
            vars.contains_key(q) || exists|k: Seq<char>|
                data.contains_key(k) && q == #[trigger] event_key(k),
        |q: Seq<char>|
            if exists|k: Seq<char>| data.contains_key(k) && q == #[trigger] event_key(k) {
                data[choose|k: Seq<char>| data.contains_key(k) && q == #[trigger] event_key(k)]
            } else {
                vars[q]
            },
    )
}

/// Different data are bound under different names.
pub proof fn lemma_event_key_injective(a: Seq<char>, b: Seq<char>)
    requires
        event_key(a) == event_key(b),
    ensures
        a == b,
{
    let n = "event."@.len() as int;
    assert(event_key(a).skip(n) =~= a);
    assert(event_key(b).skip(n) =~= b);
}

/// Binding no data leaves the variables as they are.
pub proof fn lemma_event_data_none(vars: Map<Seq<char>, ValueView>)
    ensures
        with_event_data(vars, Map::empty()) == vars,
{
    assert(with_event_data(vars, Map::empty()) =~= vars);
}

/// Binding one more datum binds its name behind `event.` on top of the
/// names bound before.
pub proof fn lemma_event_data_step(
    vars: Map<Seq<char>, ValueView>,
    data: Map<Seq<char>, ValueView>,
    key: Seq<char>,
    value: ValueView,
)
    ensures
        with_event_data(vars, data.insert(key, value)) == with_event_data(vars, data).insert(
            event_key(key),
            value,
        ),
{
    let more = data.insert(key, value);
    let l = with_event_data(vars, more);
    let r = with_event_data(vars, data).insert(event_key(key), value);
    assert forall|q: Seq<char>|
        #![trigger l.contains_key(q)]
        #![trigger r.contains_key(q)]
        l.contains_key(q) == r.contains_key(q) && (l.contains_key(q) ==> l[q] == r[q]) by {
        let in_more = exists|k: Seq<char>| more.contains_key(k) && q == #[trigger] event_key(k);
        let in_data = exists|k: Seq<char>| data.contains_key(k) && q == #[trigger] event_key(k);
        if q == event_key(key) {
            assert(more.contains_key(key) && q == event_key(key));
            let c = choose|k: Seq<char>| more.contains_key(k) && q == #[trigger] event_key(k);
            lemma_event_key_injective(c, key);
        } else {
            if in_more {
                let c = choose|k: Seq<char>| more.contains_key(k) && q == #[trigger] event_key(k);
                assert(c != key);
                assert(data.contains_key(c) && q == event_key(c));
                let d = choose|k: Seq<char>| data.contains_key(k) && q == #[trigger] event_key(k);
                lemma_event_key_injective(c, d);
            }
            if in_data {
                let d = choose|k: Seq<char>| data.contains_key(k) && q == #[trigger] event_key(k);
                assert(more.contains_key(d) && q == event_key(d));
            }
        }
    }
    assert(l =~= r);
}

/// The machine after the data of an emitted event, if it has any, have been
/// bound in the scope.
pub open spec fn heard(m: Machine, data: Option<Map<Seq<char>, ValueView>>) -> Machine {
    match data {
        Some(d) => Machine {
            context: ContextView {
                variables: with_event_data(m.context.variables, d),
                ..m.context
            },
            ..m
        },
        None => m,
    }
}

/// Whether the operation writes a number or a value at a path.
pub open spec fn is_value_op(op: OperationView) -> bool {
    op is Add || op is Subtract || op is Multiply || op is SetValue
}

/// Whether the operation writes a flag.
pub open spec fn is_flag_op(op: OperationView) -> bool {
    op is SetFlag || op is ToggleFlag
}

/// Whether the operation binds or looks up a variable of the scope.
pub open spec fn is_variable_op(op: OperationView) -> bool {
    op is SetVariable || op is GetVariable
}

/// Whether the operation changes a collection.
pub open spec fn is_collection_op(op: OperationView) -> bool {
    op is Filter || op is Remove || op is Append || op is Insert
}

/// Whether the operation registers, emits or schedules.
pub open spec fn is_event_op(op: OperationView) -> bool {
    op is OnEvent || op is EmitEvent || op is ScheduleOperation
}

/// Whether the operation runs bodies of operations by a condition or a
/// collection.
pub open spec fn is_control_flow_op(op: OperationView) -> bool {
    op is IfCondition || op is While || op is ForEach
}

/// The path that an operation on the state writes at.
pub open spec fn written_path(op: OperationView) -> Seq<char> {
    match op {
        OperationView::Add { target, amount } => target,
        OperationView::Subtract { target, amount } => target,
        OperationView::Multiply { target, factor } => target,
        OperationView::SetValue { target, value } => target,
        OperationView::SetFlag { flag, value } => flag,
        OperationView::ToggleFlag { flag } => flag,
        _ => Seq::empty(),
    }
}

/// What an operation on the state makes of the variables of the game state
/// and of the resources; nothing where the write is refused.
pub open spec fn state_write(
    op: OperationView,
    state: Map<Seq<char>, ValueView>,
    world: WorldView,
) -> Option<(Map<Seq<char>, ValueView>, WorldView)> {
    match op {
        OperationView::Add { target, amount } => state_add(state, world, target, amount),
        OperationView::Subtract { target, amount } => state_subtract(state, world, target, amount),
        OperationView::Multiply { target, factor } => state_multiply(state, world, target, factor),
        OperationView::SetValue { target, value } => state_set(state, world, target, value),
        OperationView::SetFlag { flag, value } => state_set(
            state,
            world,
            flag,
            ValueView::Bool(value),
        ),
        OperationView::ToggleFlag { flag } => state_toggle(state, world, flag),
        _ => None,
    }
}

/// What came of an operation on the state: the write, or the error of an
/// invalid path with nothing changed.
pub open spec fn state_op_runs(
    op: OperationView,
    state_before: Map<Seq<char>, ValueView>,
    world_before: WorldView,
    state_after: Map<Seq<char>, ValueView>,
    world_after: WorldView,
    result: Outcome,
) -> bool {
    match state_write(op, state_before, world_before) {
        Some((state, world)) => state_after == state && world_after == world && result == Ok::<
            (),
            ErrorView,
        >(()),
        None => state_after == state_before && world_after == world_before && result == Err::<
            (),
            ErrorView,
        >(ErrorView::InvalidPath(written_path(op))),
    }
}

/// The scope after an operation on its variables.
pub open spec fn variable_op_scope(op: OperationView, ctx: ContextView) -> ContextView {
    match op {
        OperationView::SetVariable { name, value } => scope_with(ctx, name, value),
        _ => ctx,
    }
}

/// The bodies registered for an event; none if nothing was registered.
pub open spec fn bodies_for(
    listeners: Map<Seq<char>, Seq<Seq<OperationView>>>,
    event: Seq<char>,
) -> Seq<Seq<OperationView>> {
    if listeners.contains_key(event) {
        listeners[event]
    } else {
        Seq::empty()
    }
}

/// The listeners after one more body has been registered for an event,
/// behind those registered before.
pub open spec fn registered(
    listeners: Map<Seq<char>, Seq<Seq<OperationView>>>,
    event: Seq<char>,
    body: Seq<OperationView>,
) -> Map<Seq<char>, Seq<Seq<OperationView>>> {
    listeners.insert(event, bodies_for(listeners, event).push(body))
}

/// The items of a collection; none if there is no collection of that name.
pub open spec fn items_of(cs: Map<Seq<char>, Seq<ValueView>>, name: Seq<char>) -> Seq<ValueView> {
    if cs.contains_key(name) {
        cs[name]
    } else {
        Seq::empty()
    }
}

/// What the variable `removed` is bound to after a removal: the item, if it
/// was one, else the list of the items.
pub open spec fn removed_value(gone: Seq<ValueView>) -> ValueView {
    if gone.len() == 1 {
        gone[0]
    } else {
        ValueView::Array(gone)
    }
}

/// How many items a removal of up to `count` takes from `len`.
pub open spec fn taken_count(count: nat, len: nat) -> nat {
    if count <= len {
        count
    } else {
        len
    }
}

/// Whether a removal of up to `count` items from `items` may leave the scope
/// and the resources so: the items go from the end, last first, or, where
/// `random` is set, each from any position in what is left; what went is
/// bound to `removed`.
pub open spec fn removal_runs(
    target: Seq<char>,
    items: Seq<ValueView>,
    count: nat,
    random: bool,
    ctx_before: ContextView,
    world_before: WorldView,
    ctx_after: ContextView,
    world_after: WorldView,
) -> bool {
    exists|picks: Seq<int>|
        {
            &&& picks.len() == taken_count(count, items.len())
            &&& valid_picks(items.len(), picks)
            &&& !random ==> picks == picks_from_end(items.len(), picks.len())
            &&& world_after == world_with(
                world_before,
                world_before.collections->0.insert(target, (#[trigger] take_picks(items, picks)).0),
            )
            &&& ctx_after == scope_with(
                ctx_before,
                "removed"@,
                removed_value(take_picks(items, picks).1),
            )
        }
}

/// Whether a filter, an append or an insert may end with `result` and leave
/// the resources so. A host without collections fails the operation. A
/// filter on a name that is not bound does nothing; an append or an insert
/// binds the name.
pub open spec fn world_op_runs(
    op: OperationView,
    world_before: WorldView,
    world_after: WorldView,
    result: Outcome,
) -> bool {
    match world_before.collections {
        None => world_after == world_before && result == Err::<(), ErrorView>(no_collections()),
        Some(cs) => match op {
            OperationView::Filter { target, predicate } => if !cs.contains_key(target) {
                world_after == world_before && result == Ok::<(), ErrorView>(())
            } else {
                match filter_items(cs[target], predicate) {
                    Ok(kept) => world_after == world_with(world_before, cs.insert(target, kept))
                        && result == Ok::<(), ErrorView>(()),
                    Err(e) => world_after == world_before && result == Err::<(), ErrorView>(e),
                }
            },
            OperationView::Append { target, item } => world_after == world_with(
                world_before,
                cs.insert(target, items_of(cs, target).push(item)),
            ) && result == Ok::<(), ErrorView>(()),
            OperationView::Insert { target, index, item } => world_after == world_with(
                world_before,
                cs.insert(target, inserted(items_of(cs, target), index, item)),
            ) && result == Ok::<(), ErrorView>(()),
            _ => world_after == world_before && result == Ok::<(), ErrorView>(()),
        },
    }
}

/// Whether an operation on a collection may end with `result` and leave the
/// scope and the resources so. A removal filters first, if it has a filter,
/// and does nothing on a name that is not bound; the other operations leave
/// the scope alone.
pub open spec fn collection_op_runs(
    op: OperationView,
    ctx_before: ContextView,
    world_before: WorldView,
    ctx_after: ContextView,
    world_after: WorldView,
    result: Outcome,
) -> bool {
    let unchanged = ctx_after == ctx_before && world_after == world_before;
    match op {
        OperationView::Remove { target, count, filter, random } => match world_before.collections {
            None => unchanged && result == Err::<(), ErrorView>(no_collections()),
            Some(cs) => if !cs.contains_key(target) {
                unchanged && result == Ok::<(), ErrorView>(())
            } else {
                match (match filter {
                    Some(p) => filter_items(cs[target], p),
                    None => Ok(cs[target]),
                }) {
                    Ok(items) => removal_runs(
                        target,
                        items,
                        count,
                        random == Some(true),
                        ctx_before,
                        world_before,
                        ctx_after,
                        world_after,
                    ) && result == Ok::<(), ErrorView>(()),
                    Err(e) => unchanged && result == Err::<(), ErrorView>(e),
                }
            },
        },
        _ => ctx_after == ctx_before && world_op_runs(op, world_before, world_after, result),
    }
}

/// Whether running `op` on the machine `before` may end with `result` and
/// leave the machine `after`. `depth` is how many levels of emitted events
/// may still nest below the operation.
pub open spec fn runs(
    op: OperationView,
    before: Machine,
    after: Machine,
    result: Outcome,
    depth: nat,
) -> bool
    decreases depth, op, 0nat, 0nat,
{
    match op {
        OperationView::OnEvent { event, operations } => after == (Machine {
            listeners: registered(before.listeners, event, operations),
            ..before
        }) && result == Ok::<(), ErrorView>(()),
        OperationView::EmitEvent { event, data } => {
            let bodies = bodies_for(before.listeners, event);
            if bodies.len() == 0 {
                after == heard(before, data) && result == Ok::<(), ErrorView>(())
            } else if depth == 0 {
                after == heard(before, data) && result == Err::<(), ErrorView>(too_deep())
            } else {
                bodies_run(bodies, 0, heard(before, data), after, result, (depth - 1) as nat)
            }
        },
        OperationView::ScheduleOperation { delay_seconds, operations } => after == before
            && result == Ok::<(), ErrorView>(()),
        OperationView::IfCondition { condition, then_, else_ } => match state_verdict(
            condition,
            before,
        ) {
            Err(e) => after == before && result == Err::<(), ErrorView>(e),
            Ok(true) => list_runs(then_, 0, before, after, result, depth),
            Ok(false) => match else_ {
                Some(ops) => list_runs(ops, 0, before, after, result, depth),
                None => after == before && result == Ok::<(), ErrorView>(()),
            },
        },
        OperationView::While { condition, operations, max_iterations } => loop_runs(
            condition,
            operations,
            match max_iterations {
                Some(m) => m,
                None => DEFAULT_MAX_ITERATIONS as nat,
            },
            0,
            before,
            after,
            result,
            depth,
        ),
        OperationView::ForEach { collection, operations } => match before.world.collections {
            None => after == before && result == Err::<(), ErrorView>(no_collections()),
            Some(cs) => each_runs(
                items_of(cs, collection),
                operations,
                0,
                before,
                after,
                result,
                depth,
            ),
        },
        OperationView::SetVariable { name, value } => after == (Machine {
            context: variable_op_scope(op, before.context),
            ..before
        }) && result == Ok::<(), ErrorView>(()),
        OperationView::GetVariable { name } => after == before && result == Ok::<(), ErrorView>(
            (),
        ),
        OperationView::Filter { .. }
        | OperationView::Remove { .. }
        | OperationView::Append { .. }
        | OperationView::Insert { .. } => {
            &&& collection_op_runs(
                op,
                before.context,
                before.world,
                after.context,
                after.world,
                result,
            )
            &&& after.state == before.state
            &&& after.listeners == before.listeners
        },
        OperationView::Add { .. }
        | OperationView::Subtract { .. }
        | OperationView::Multiply { .. }
        | OperationView::SetValue { .. }
        | OperationView::SetFlag { .. }
        | OperationView::ToggleFlag { .. } => {
            &&& state_op_runs(op, before.state, before.world, after.state, after.world, result)
            &&& after.context == before.context
            &&& after.listeners == before.listeners
        },
    }
}

/// Holds of every machine and outcome: it names the point between two steps
/// of a run.
pub open spec fn between(mid: Machine, r: Outcome) -> bool {
    true
}

/// Whether running the operations from position `from` on, in order and up
/// to the first that fails, may end with `result` and leave `after`.
pub open spec fn list_runs(
    ops: Seq<OperationView>,
    from: int,
    before: Machine,
    after: Machine,
    result: Outcome,
    depth: nat,
) -> bool
    decreases depth, ops, 0nat, ops.len() - from,
{
    if from < 0 || from >= ops.len() {
        after == before && result == Ok::<(), ErrorView>(())
    } else {
        exists|mid: Machine, r: Outcome|
            {
                &&& #[trigger] between(mid, r)
                &&& runs(ops[from], before, mid, r, depth)
                &&& if r is Err {
                    after == mid && result == r
                } else {
                    list_runs(ops, from + 1, mid, after, result, depth)
                }
            }
    }
}

/// Whether running the bodies from position `from` on, in order and up to
/// the first that fails, may end with `result` and leave `after`.
pub open spec fn bodies_run(
    bodies: Seq<Seq<OperationView>>,
    from: int,
    before: Machine,
    after: Machine,
    result: Outcome,
    depth: nat,
) -> bool
    decreases depth, bodies, 1nat, bodies.len() - from,
{
    if from < 0 || from >= bodies.len() {
        after == before && result == Ok::<(), ErrorView>(())
    } else {
        exists|mid: Machine, r: Outcome|
            {
                &&& #[trigger] between(mid, r)
                &&& list_runs(bodies[from], 0, before, mid, r, depth)
                &&& if r is Err {
                    after == mid && result == r
                } else {
                    bodies_run(bodies, from + 1, mid, after, result, depth)
                }
            }
    }
}

/// Whether a loop that has run its body `done` times may go on to end with
/// `result` and leave `after`. The condition is asked before each run of the
/// body; where it holds after `max` runs, the loop fails.
pub open spec fn loop_runs(
    condition: PredicateView,
    body: Seq<OperationView>,
    max: nat,
    done: nat,
    before: Machine,
    after: Machine,
    result: Outcome,
    depth: nat,
) -> bool
    decreases depth, body, 1nat, max - done,
{
    match state_verdict(condition, before) {
        Err(e) => after == before && result == Err::<(), ErrorView>(e),
        Ok(false) => after == before && result == Ok::<(), ErrorView>(()),
        Ok(true) => if done >= max {
            after == before && result == Err::<(), ErrorView>(ErrorView::MaxIterationsReached)
        } else {
            exists|mid: Machine, r: Outcome|
                {
                    &&& #[trigger] between(mid, r)
                    &&& list_runs(body, 0, before, mid, r, depth)
                    &&& if r is Err {
                        after == mid && result == r
                    } else {
                        loop_runs(condition, body, max, done + 1, mid, after, result, depth)
                    }
                }
        },
    }
}

/// Whether running the body once for each item from position `from` on,
/// with `item` and `index` bound in the scope, may end with `result` and
/// leave `after`.
pub open spec fn each_runs(
    items: Seq<ValueView>,
    body: Seq<OperationView>,
    from: int,
    before: Machine,
    after: Machine,
    result: Outcome,
    depth: nat,
) -> bool
    decreases depth, body, 1nat, items.len() - from,
{
    if from < 0 || from >= items.len() {
        after == before && result == Ok::<(), ErrorView>(())
    } else {
        exists|mid: Machine, r: Outcome|
            {
                &&& #[trigger] between(mid, r)
                &&& list_runs(
                    body,
                    0,
                    with_variable(
                        with_variable(before, "item"@, items[from]),
                        "index"@,
                        ValueView::Int(low_bits(from as nat)),
                    ),
                    mid,
                    r,
                    depth,
                )
                &&& if r is Err {
                    after == mid && result == r
                } else {
                    each_runs(items, body, from + 1, mid, after, result, depth)
                }
            }
    }
}

} // verus!
