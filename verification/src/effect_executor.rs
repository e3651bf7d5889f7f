//! The executor: runs operations and evaluates predicates.

use crate::assoc::{bound, find_binding, lemma_bindings_prefix, lemma_bindings_replace};

use crate::effect::{
    duplicate_operations, operations_view, predicates_view, CardEffect, Comparison, EffectContext,
    EffectOperation, OperationView, Predicate,
};
pub use crate::error::{EffectError, EffectResult};
use crate::error::{outcome_view, verdict_view, ErrorView};
use crate::game_state::GameState;
use crate::resources::World;
use crate::semantics::{
    between, bodies_run, list_runs, registered, resolve, runs, state_all, state_any, state_compare,
    state_verdict, Machine, Outcome, MAX_EVENT_DEPTH,
};
use crate::text::chars_of;
use crate::value::Value;
use vstd::prelude::*;
use vstd::string::*;

pub mod collection_ops;
pub mod control_flow;
pub mod event_ops;
pub mod flag_ops;
pub mod value_ops;
pub mod variable_ops;

verus! {

/// Runs effects, and keeps the listeners that effects register.
#[derive(Debug, Clone)]
pub struct EffectExecutor {
    pub event_listeners: Vec<(String, Vec<Vec<EffectOperation>>)>,
}

/// The contents of a list of bodies.
pub open spec fn bodies_view(bodies: Vec<Vec<EffectOperation>>) -> Seq<Seq<OperationView>> {
    Seq::new(bodies.len() as nat, |i: int| operations_view(bodies[i]))
}

/// The contents of the bodies that a list of bindings registers.
pub open spec fn listeners_view(es: Seq<(String, Vec<Vec<EffectOperation>>)>) -> Map<
    Seq<char>,
    Seq<Seq<OperationView>>,
> {
    Map::new(|k: Seq<char>| bound(es).contains_key(k), |k: Seq<char>| bodies_view(bound(es)[k]))
}

impl View for EffectExecutor {
    type V = Map<Seq<char>, Seq<Seq<OperationView>>>;

    open spec fn view(&self) -> Map<Seq<char>, Seq<Seq<OperationView>>> {
        listeners_view(self.event_listeners@)
    }
}

/// The machine that an executor, a scope, a game state and the host's
/// resources make up.
pub open spec fn machine(
    executor: EffectExecutor,
    context: EffectContext,
    state: GameState,
    world: World,
) -> Machine {
    Machine { context: context@, state: state@, world: world@, listeners: executor@ }
}

impl Default for EffectExecutor {
    fn default() -> (r: EffectExecutor)
        ensures
            r@ == Map::<Seq<char>, Seq<Seq<OperationView>>>::empty(),
    {
        EffectExecutor::new()
    }
}

/// A copy of a list of bodies, body by body.
fn duplicate_bodies(bodies: &Vec<Vec<EffectOperation>>) -> (r: Vec<Vec<EffectOperation>>)
    ensures
        bodies_view(r) == bodies_view(*bodies),
{
    let mut out: Vec<Vec<EffectOperation>> = Vec::new();
    let mut i: usize = 0;
    while i < bodies.len()
        invariant
            i <= bodies.len(),
            out.len() == i,
            forall|j: int| 0 <= j < i ==> operations_view(out[j]) == operations_view(bodies[j]),
        decreases bodies.len() - i,
    {
        out.push(duplicate_operations(&bodies[i]));
        i += 1;
    }
    proof {
        assert(bodies_view(out) =~= bodies_view(*bodies));
    }
    out
}

impl EffectExecutor {
    /// Runs the operations of an effect in order, up to the first that
    /// fails. What the operations before a failure did stays done.
    pub fn execute_effect(
        &mut self,
        effect: &CardEffect,
        context: &mut EffectContext,
        state: &mut GameState,
        world: &mut World,
    ) -> (r: EffectResult)
        ensures
            list_runs(
                operations_view(effect.operations),
                0,
                machine(*old(self), *old(context), *old(state), *old(world)),
                machine(*final(self), *final(context), *final(state), *final(world)),
                outcome_view(r),
                MAX_EVENT_DEPTH as nat,
            ),
    {
        self.run_list(&effect.operations, context, state, world, MAX_EVENT_DEPTH)
    }

    /// Runs one operation, with the bodies it holds.
    pub fn execute_operation(
        &mut self,
        operation: &EffectOperation,
        context: &mut EffectContext,
        state: &mut GameState,
        world: &mut World,
    ) -> (r: EffectResult)
        ensures
            runs(
                operation@,
                machine(*old(self), *old(context), *old(state), *old(world)),
                machine(*final(self), *final(context), *final(state), *final(world)),
                outcome_view(r),
                MAX_EVENT_DEPTH as nat,
            ),
    {
        self.run_operation(operation, context, state, world, MAX_EVENT_DEPTH)
    }

    /// Runs one operation, below which `depth` levels of emitted events may
    /// nest.
    pub fn run_operation(
        &mut self,
        operation: &EffectOperation,
        context: &mut EffectContext,
        state: &mut GameState,
        world: &mut World,
        depth: usize,
    ) -> (r: EffectResult)
        ensures
            runs(
                operation@,
                machine(*old(self), *old(context), *old(state), *old(world)),
                machine(*final(self), *final(context), *final(state), *final(world)),
                outcome_view(r),
                depth as nat,
            ),
        decreases depth, operation, 1nat,
    {
        if let Some(result) = value_ops::execute_value_operation(operation, state, world) {
            return result;
        }
        if let Some(result) = flag_ops::execute_flag_operation(operation, state, world) {
            return result;
        }
        if let Some(result) = variable_ops::execute_variable_operation(operation, context) {
            return result;
        }
        if let Some(result) = event_ops::run_event_operation(
            self,
            operation,
            context,
            state,
            world,
            depth,
        ) {
            return result;
        }
        if let Some(result) = collection_ops::execute_collection_operation(
            operation,
            context,
            world,
        ) {
            return result;
        }
        if let Some(result) = control_flow::run_control_flow_operation(
            self,
            operation,
            context,
            state,
            world,
            depth,
        ) {
            return result;
        }
        Ok(())
    }

    /// Runs operations in order, up to the first that fails, with `depth`
    /// levels of emitted events below them.
    pub fn run_list(
        &mut self,
        ops: &Vec<EffectOperation>,
        context: &mut EffectContext,
        state: &mut GameState,
        world: &mut World,
        depth: usize,
    ) -> (r: EffectResult)
        ensures
            list_runs(
                operations_view(*ops),
                0,
                machine(*old(self), *old(context), *old(state), *old(world)),
                machine(*final(self), *final(context), *final(state), *final(world)),
                outcome_view(r),
                depth as nat,
            ),
        decreases depth, ops, 0nat,
    {
        let ghost start = machine(*self, *context, *state, *world);
        let ghost opsv = operations_view(*ops);
        let mut i: usize = 0;
        while i < ops.len()
            invariant
                i <= ops.len(),
                opsv == operations_view(*ops),
                start == machine(*old(self), *old(context), *old(state), *old(world)),
                forall|after: Machine, result: Outcome| #[trigger]
                    list_runs(
                        opsv,
                        i as int,
                        machine(*self, *context, *state, *world),
                        after,
                        result,
                        depth as nat,
                    ) ==> list_runs(opsv, 0, start, after, result, depth as nat),
            decreases ops.len() - i,
        {
            let ghost cur = machine(*self, *context, *state, *world);
            let r = self.run_operation(&ops[i], context, state, world, depth);
            let ghost mid = machine(*self, *context, *state, *world);
            let ghost rv = outcome_view(r);
            proof {
                assert(runs(opsv[i as int], cur, mid, rv, depth as nat));
                assert(between(mid, rv));
            }
            match r {
                Err(e) => {
                    proof {
                        assert(list_runs(opsv, i as int, cur, mid, rv, depth as nat));
                    }
                    return Err(e);
                },
                Ok(_) => {
                    proof {
                        assert forall|after: Machine, result: Outcome| #[trigger]
                            list_runs(
                                opsv,
                                i + 1,
                                mid,
                                after,
                                result,
                                depth as nat,
                            ) implies list_runs(opsv, 0, start, after, result, depth as nat) by {
                            assert(list_runs(opsv, i as int, cur, after, result, depth as nat));
                        }
                    }
                },
            }
            i += 1;
        }
        proof {
            let end = machine(*self, *context, *state, *world);
            assert(list_runs(opsv, i as int, end, end, Ok::<(), ErrorView>(()), depth as nat));
        }
        Ok(())
    }

    /// Runs bodies in order, up to the first that fails, with `depth` levels
    /// of emitted events below them.
    pub fn run_bodies(
        &mut self,
        bodies: &Vec<Vec<EffectOperation>>,
        context: &mut EffectContext,
        state: &mut GameState,
        world: &mut World,
        depth: usize,
    ) -> (r: EffectResult)
        ensures
            bodies_run(
                bodies_view(*bodies),
                0,
                machine(*old(self), *old(context), *old(state), *old(world)),
                machine(*final(self), *final(context), *final(state), *final(world)),
                outcome_view(r),
                depth as nat,
            ),
        decreases depth, bodies, 1nat,
    {
        let ghost start = machine(*self, *context, *state, *world);
        let ghost all = bodies_view(*bodies);
        let mut i: usize = 0;
        while i < bodies.len()
            invariant
                i <= bodies.len(),
                all == bodies_view(*bodies),
                start == machine(*old(self), *old(context), *old(state), *old(world)),
                forall|after: Machine, result: Outcome| #[trigger]
                    bodies_run(
                        all,
                        i as int,
                        machine(*self, *context, *state, *world),
                        after,
                        result,
                        depth as nat,
                    ) ==> bodies_run(all, 0, start, after, result, depth as nat),
            decreases bodies.len() - i,
        {
            let ghost cur = machine(*self, *context, *state, *world);
            let r = self.run_list(&bodies[i], context, state, world, depth);
            let ghost mid = machine(*self, *context, *state, *world);
            let ghost rv = outcome_view(r);
            proof {
                assert(list_runs(all[i as int], 0, cur, mid, rv, depth as nat));
                assert(between(mid, rv));
            }
            match r {
                Err(e) => {
                    proof {
                        assert(bodies_run(all, i as int, cur, mid, rv, depth as nat));
                    }
                    return Err(e);
                },
                Ok(_) => {
                    proof {
                        assert forall|after: Machine, result: Outcome| #[trigger]
                            bodies_run(
                                all,
                                i + 1,
                                mid,
                                after,
                                result,
                                depth as nat,
                            ) implies bodies_run(all, 0, start, after, result, depth as nat) by {
                            assert(bodies_run(all, i as int, cur, after, result, depth as nat));
                        }
                    }
                },
            }
            i += 1;
        }
        proof {
            let end = machine(*self, *context, *state, *world);
            assert(bodies_run(all, i as int, end, end, Ok::<(), ErrorView>(()), depth as nat));
        }
        Ok(())
    }

    /// An executor without listeners.
    pub fn new() -> (r: EffectExecutor)
        ensures
            r@ == Map::<Seq<char>, Seq<Seq<OperationView>>>::empty(),
    {
        let r = EffectExecutor { event_listeners: Vec::new() };
        proof {
            assert(r@ =~= Map::<Seq<char>, Seq<Seq<OperationView>>>::empty());
        }
        r
    }

    /// Registers a body for an event, behind the bodies registered for it
    /// before.
    pub fn register_event_listener(&mut self, event: String, operations: Vec<EffectOperation>)
        ensures
            final(self)@ == registered(old(self)@, event@, operations_view(operations)),
    {
        let ghost before = self.event_listeners@;
        match find_binding(&self.event_listeners, event.as_str()) {
            Some(i) => {
                let ghost bodies_before = self.event_listeners[i as int].1;
                self.event_listeners[i].1.push(operations);
                proof {
                    lemma_bindings_replace(
                        before,
                        self.event_listeners@,
                        i as int,
                        before.len(),
                    );
                    assert(bodies_view(self.event_listeners[i as int].1) =~= bodies_view(
                        bodies_before,
                    ).push(operations_view(operations)));
                }
            },
            None => {
                let mut bodies: Vec<Vec<EffectOperation>> = Vec::new();
                bodies.push(operations);
                proof {
                    assert(bodies_view(bodies) =~= Seq::<Seq<OperationView>>::empty().push(
                        operations_view(operations),
                    ));
                }
                self.event_listeners.push((event, bodies));
                proof {
                    lemma_bindings_prefix(before, self.event_listeners@, before.len());
                }
            },
        }
        proof {
            assert(self@ =~= registered(old(self)@, event@, operations_view(operations)));
        }
    }

    /// A copy of the bodies registered for an event, if any were.
    pub fn get_event_listeners(&self, event: &str) -> (r: Option<Vec<Vec<EffectOperation>>>)
        ensures
            match r {
                Some(bodies) => self@.contains_key(event@) && bodies_view(bodies) == self@[event@],
                None => !self@.contains_key(event@),
            },
    {
        match find_binding(&self.event_listeners, event) {
            Some(i) => Some(duplicate_bodies(&self.event_listeners[i].1)),
            None => None,
        }
    }

    /// Forgets all listeners.
    pub fn clear_listeners(&mut self)
        ensures
            final(self)@ == Map::<Seq<char>, Seq<Seq<OperationView>>>::empty(),
    {
        self.event_listeners.clear();
        proof {
            assert(self@ =~= Map::<Seq<char>, Seq<Seq<OperationView>>>::empty());
        }
    }

    /// The value that a field of a predicate stands for: the variable of the
    /// scope that it names behind a `$`, if that is bound, else what it
    /// reads as a path.
    pub fn resolve_value(
        &self,
        field: &str,
        context: &EffectContext,
        state: &GameState,
        world: &World,
    ) -> (r: Result<Value, EffectError>)
        ensures
            match resolve(machine(*self, *context, *state, *world), field@) {
                Some(v) => r matches Ok(x) && x@ == v,
                None => r matches Err(e) && e@ == ErrorView::InvalidPath(field@),
            },
    {
        let chars = chars_of(field);
        if chars.len() > 0 && chars[0] == '$' {
            let name = field.substring_char(1, chars.len());
            proof {
                assert(name@ =~= field@.skip(1));
            }
            match context.get_variable(name) {
                Some(value) => {
                    return Ok(value.duplicate());
                },
                None => {},
            }
        }
        match state.get(field, world) {
            Some(value) => Ok(value),
            None => Err(EffectError::InvalidPath(field.to_string())),
        }
    }

    /// How a value of the state compares with a value. Values that are not
    /// both numbers are in no order.
    pub fn compare_values(&self, a: &Value, b: &Value, how: &Comparison) -> (r: bool)
        ensures
            r == state_compare(*how, a@, b@),
    {
        match how {
            Comparison::Equals => a.same(b),
            Comparison::NotEquals => !a.same(b),
            _ => match (a.as_micros(), b.as_micros()) {
                (Some(x), Some(y)) => match how {
                    Comparison::GreaterThan => x > y,
                    Comparison::LessThan => x < y,
                    Comparison::GreaterOrEqual => x >= y,
                    _ => x <= y,
                },
                _ => false,
            },
        }
    }

    fn compare_field(
        &self,
        field: &str,
        value: &Value,
        how: Comparison,
        context: &EffectContext,
        state: &GameState,
        world: &World,
    ) -> (r: Result<bool, EffectError>)
        ensures
            verdict_view(r) == match resolve(machine(*self, *context, *state, *world), field@) {
                Some(current) => Ok::<bool, ErrorView>(state_compare(how, current, value@)),
                None => Err(ErrorView::InvalidPath(field@)),
            },
    {
        match self.resolve_value(field, context, state, world) {
            Ok(current) => Ok(self.compare_values(&current, value, &how)),
            Err(e) => Err(e),
        }
    }

    /// What a predicate says of the state.
    pub fn evaluate_predicate(
        &self,
        predicate: &Predicate,
        context: &EffectContext,
        state: &GameState,
        world: &World,
    ) -> (r: Result<bool, EffectError>)
        ensures
            verdict_view(r) == state_verdict(
                predicate@,
                machine(*self, *context, *state, *world),
            ),
        decreases predicate,
    {
        match predicate {
            Predicate::Equals { field, value } => self.compare_field(
                field.as_str(),
                value,
                Comparison::Equals,
                context,
                state,
                world,
            ),
            Predicate::NotEquals { field, value } => self.compare_field(
                field.as_str(),
                value,
                Comparison::NotEquals,
                context,
                state,
                world,
            ),
            Predicate::GreaterThan { field, value } => self.compare_field(
                field.as_str(),
                value,
                Comparison::GreaterThan,
                context,
                state,
                world,
            ),
            Predicate::LessThan { field, value } => self.compare_field(
                field.as_str(),
                value,
                Comparison::LessThan,
                context,
                state,
                world,
            ),
            Predicate::GreaterOrEqual { field, value } => self.compare_field(
                field.as_str(),
                value,
                Comparison::GreaterOrEqual,
                context,
                state,
                world,
            ),
            Predicate::LessOrEqual { field, value } => self.compare_field(
                field.as_str(),
                value,
                Comparison::LessOrEqual,
                context,
                state,
                world,
            ),
            Predicate::And { predicates } => self.evaluate_all(predicates, context, state, world),
            Predicate::Or { predicates } => self.evaluate_any(predicates, context, state, world),
            Predicate::Not { predicate } => match self.evaluate_predicate(
                predicate,
                context,
                state,
                world,
            ) {
                Ok(b) => Ok(!b),
                Err(e) => Err(e),
            },
            Predicate::HasTag { tag } => Ok(false),
            Predicate::IsType { card_type } => Ok(false),
            Predicate::Contains { field, value } => Ok(false),
            Predicate::Expression { expr } => Ok(false),
        }
    }

    fn evaluate_all(
        &self,
        ps: &Vec<Predicate>,
        context: &EffectContext,
        state: &GameState,
        world: &World,
    ) -> (r: Result<bool, EffectError>)
        ensures
            verdict_view(r) == state_all(
                predicates_view(*ps),
                machine(*self, *context, *state, *world),
                0,
            ),
        decreases ps,
    {
        let ghost m = machine(*self, *context, *state, *world);
        let mut i: usize = 0;
        while i < ps.len()
            invariant
                i <= ps.len(),
                m == machine(*self, *context, *state, *world),
                state_all(predicates_view(*ps), m, 0) == state_all(
                    predicates_view(*ps),
                    m,
                    i as int,
                ),
            decreases ps.len() - i,
        {
            match self.evaluate_predicate(&ps[i], context, state, world) {
                Ok(true) => {},
                other => {
                    return other;
                },
            }
            i += 1;
        }
        Ok(true)
    }

    fn evaluate_any(
        &self,
        ps: &Vec<Predicate>,
        context: &EffectContext,
        state: &GameState,
        world: &World,
    ) -> (r: Result<bool, EffectError>)
        ensures
            verdict_view(r) == state_any(
                predicates_view(*ps),
                machine(*self, *context, *state, *world),
                0,
            ),
        decreases ps,
    {
        let ghost m = machine(*self, *context, *state, *world);
        let mut i: usize = 0;
        while i < ps.len()
            invariant
                i <= ps.len(),
                m == machine(*self, *context, *state, *world),
                state_any(predicates_view(*ps), m, 0) == state_any(
                    predicates_view(*ps),
                    m,
                    i as int,
                ),
            decreases ps.len() - i,
        {
            match self.evaluate_predicate(&ps[i], context, state, world) {
                Ok(false) => {},
                other => {
                    return other;
                },
            }
            i += 1;
        }
        Ok(false)
    }
}

} // verus!
