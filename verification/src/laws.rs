//! Laws of the interpreter, proved from the meaning of its operations.

use crate::collections::{item_all, item_any, item_verdict, satisfies};
use crate::effect::{OperationView, PredicateView};
use crate::error::ErrorView;
use crate::game_state::{state_get, wrap_i32};
use crate::collections::{lemma_take_picks_len, take_picks};
use crate::game_state::low_bits;
use crate::semantics::{
    between, each_runs, list_runs, loop_runs, runs, state_all, state_any, state_verdict,
    taken_count, with_variable, Machine, Outcome,
};
use crate::value::ValueView;
use vstd::prelude::*;

verus! {

/// A conjunction of no predicates holds, of the state and of any item.
pub proof fn law_empty_and(m: Machine, item: ValueView)
    ensures
        state_verdict(PredicateView::And { predicates: Seq::empty() }, m) == Ok::<bool, ErrorView>(
            true,
        ),
        item_verdict(PredicateView::And { predicates: Seq::empty() }, item) == Ok::<
            bool,
            ErrorView,
        >(true),
{
    assert(state_all(Seq::empty(), m, 0) == Ok::<bool, ErrorView>(true));
    assert(item_all(Seq::empty(), item, 0) == Ok::<bool, ErrorView>(true));
}

/// A disjunction of no predicates does not hold, of the state or of any
/// item.
pub proof fn law_empty_or(m: Machine, item: ValueView)
    ensures
        state_verdict(PredicateView::Or { predicates: Seq::empty() }, m) == Ok::<bool, ErrorView>(
            false,
        ),
        item_verdict(PredicateView::Or { predicates: Seq::empty() }, item) == Ok::<
            bool,
            ErrorView,
        >(false),
{
    assert(state_any(Seq::empty(), m, 0) == Ok::<bool, ErrorView>(false));
    assert(item_any(Seq::empty(), item, 0) == Ok::<bool, ErrorView>(false));
}

/// The negation of the negation of a predicate says what the predicate
/// says, of the state and of any item, errors included.
pub proof fn law_double_negation(p: PredicateView, m: Machine, item: ValueView)
    ensures
        state_verdict(
            PredicateView::Not {
                predicate: Box::new(PredicateView::Not { predicate: Box::new(p) }),
            },
            m,
        ) == state_verdict(p, m),
        item_verdict(
            PredicateView::Not {
                predicate: Box::new(PredicateView::Not { predicate: Box::new(p) }),
            },
            item,
        ) == item_verdict(p, item),
{
    let inner = PredicateView::Not { predicate: Box::new(p) };
    assert(state_verdict(inner, m) == match state_verdict(p, m) {
        Ok(b) => Ok::<bool, ErrorView>(!b),
        Err(e) => Err(e),
    });
    assert(item_verdict(inner, item) == match item_verdict(p, item) {
        Ok(b) => Ok::<bool, ErrorView>(!b),
        Err(e) => Err(e),
    });
}

/// Whether adding `amount` to the seconds left on the timer, and taking it
/// off again, stays clear of the timer's limits: the seconds left fit an
/// `i32` before and after the addition, and are never negative.
pub open spec fn timer_unclamped(m: Machine, amount: int) -> bool {
    m.world.timer matches Some(gt) && {
        let left = gt.timer.remaining_seconds();
        &&& left <= i32::MAX
        &&& 0 <= left + amount <= i32::MAX
        &&& (left + amount) * 1_000_000_000 + gt.timer.elapsed <= u64::MAX
    }
}

/// Adding an amount to the integer at a path and then subtracting the same
/// amount leaves the integer that was there. For the seconds left on the
/// timer this holds as long as the timer's limits are not met.
pub proof fn law_add_then_subtract(
    path: Seq<char>,
    amount: int,
    v: int,
    before: Machine,
    mid: Machine,
    after: Machine,
    depth: nat,
)
    requires
        i32::MIN <= amount <= i32::MAX,
        i32::MIN <= v <= i32::MAX,
        state_get(before.state, before.world, path) == Some(ValueView::Int(v)),
        path == "timer.remaining"@ ==> timer_unclamped(before, amount),
        runs(OperationView::Add { target: path, amount }, before, mid, Ok::<(), ErrorView>(()), depth),
        runs(
            OperationView::Subtract { target: path, amount },
            mid,
            after,
            Ok::<(), ErrorView>(()),
            depth,
        ),
    ensures
        state_get(after.state, after.world, path) == Some(ValueView::Int(v)),
{
    let sum = wrap_i32(v + amount);
    let back = wrap_i32(sum + wrap_i32(-amount));
    assert(back == v);
    if path == "timer.remaining"@ {
        let gt = before.world.timer->0;
        let left = gt.timer.remaining_seconds();
        assert(left == v);
        assert(sum == v + amount);
        let gt2 = mid.world.timer->0;
        assert(gt2.timer.remaining_nanos() == (v + amount) * 1_000_000_000);
        assert(gt2.timer.remaining_seconds() == v + amount) by (nonlinear_arith)
            requires
                gt2.timer.remaining_nanos() == (v + amount) * 1_000_000_000,
                gt2.timer.remaining_seconds() == gt2.timer.remaining_nanos() / 1_000_000_000,
        ;
        assert(v * 1_000_000_000 + gt.timer.elapsed <= u64::MAX) by (nonlinear_arith)
            requires
                v == gt.timer.remaining_nanos() / 1_000_000_000,
                gt.timer.remaining_nanos() + gt.timer.elapsed <= u64::MAX || v == 0,
                gt.timer.elapsed <= u64::MAX,
                v >= 0,
        ;
        let gt3 = after.world.timer->0;
        assert(gt3.timer.remaining_nanos() == v * 1_000_000_000);
        assert(gt3.timer.remaining_seconds() == v) by (nonlinear_arith)
            requires
                gt3.timer.remaining_nanos() == v * 1_000_000_000,
                gt3.timer.remaining_seconds() == gt3.timer.remaining_nanos() / 1_000_000_000,
        ;
    }
}

/// After a filter that succeeds, the collection holds the items that
/// satisfied the predicate, in their order: every item left satisfies it,
/// and an item of the collection is left if and only if it satisfies it.
pub proof fn law_filter_keeps_what_satisfies(
    target: Seq<char>,
    predicate: PredicateView,
    before: Machine,
    after: Machine,
    depth: nat,
)
    requires
        before.world.collections matches Some(cs) && cs.contains_key(target),
        runs(
            OperationView::Filter { target, predicate },
            before,
            after,
            Ok::<(), ErrorView>(()),
            depth,
        ),
    ensures
        after.world.collections matches Some(cs) && cs.contains_key(target),
        ({
            let items = before.world.collections->0[target];
            let kept = after.world.collections->0[target];
            &&& kept == items.filter(satisfies(predicate))
            &&& forall|i: int|
                0 <= i < kept.len() ==> item_verdict(predicate, #[trigger] kept[i]) == Ok::<
                    bool,
                    ErrorView,
                >(true)
            &&& forall|i: int|
                0 <= i < items.len() ==> (kept.contains(#[trigger] items[i]) <==> item_verdict(
                    predicate,
                    items[i],
                ) == Ok::<bool, ErrorView>(true))
        }),
{
    let items = before.world.collections->0[target];
    let kept = after.world.collections->0[target];
    let keep = satisfies(predicate);
    assert(kept == items.filter(keep));
    assert forall|i: int| 0 <= i < kept.len() implies item_verdict(predicate, #[trigger] kept[i])
        == Ok::<bool, ErrorView>(true) by {
        items.lemma_filter_pred(keep, i);
    }
    assert forall|i: int| 0 <= i < items.len() implies (kept.contains(#[trigger] items[i])
        <==> item_verdict(predicate, items[i]) == Ok::<bool, ErrorView>(true)) by {
        if keep(items[i]) {
            items.lemma_filter_contains(keep, i);
        }
        if kept.contains(items[i]) {
            let j = choose|j: int| 0 <= j < kept.len() && kept[j] == items[i];
            items.lemma_filter_pred(keep, j);
        }
    }
}

/// A removal of `count` items from a collection of at least as many leaves
/// `count` fewer; from a shorter collection it leaves none. It never fails.
pub proof fn law_remove_leaves_the_rest(
    target: Seq<char>,
    count: nat,
    random: Option<bool>,
    before: Machine,
    after: Machine,
    result: Outcome,
    depth: nat,
)
    requires
        before.world.collections matches Some(cs) && cs.contains_key(target),
        runs(
            OperationView::Remove { target, count, filter: None, random },
            before,
            after,
            result,
            depth,
        ),
    ensures
        result is Ok,
        after.world.collections matches Some(cs) && cs.contains_key(target),
        ({
            let len = before.world.collections->0[target].len();
            let left = after.world.collections->0[target].len();
            if count <= len {
                left == len - count
            } else {
                left == 0
            }
        }),
{
    let items = before.world.collections->0[target];
    let picks = choose|picks: Seq<int>|
        {
            &&& picks.len() == taken_count(count, items.len())
            &&& crate::collections::valid_picks(items.len(), picks)
            &&& after.world == crate::semantics::world_with(
                before.world,
                before.world.collections->0.insert(target, (#[trigger] take_picks(items, picks)).0),
            )
        };
    lemma_take_picks_len(items, picks);
}

proof fn lemma_success_is_unique(r: Outcome)
    requires
        r is Ok,
    ensures
        r == Ok::<(), ErrorView>(()),
{
    let u: () = r->Ok_0;
    assert(u == ());
}

/// A removal behind a filter counts in what the filter leaves: it takes
/// `count` of those items, or all of them if they are fewer. It fails, and
/// changes nothing, only where the filter fails.
pub proof fn law_remove_counts_after_its_filter(
    target: Seq<char>,
    count: nat,
    filter: PredicateView,
    random: Option<bool>,
    before: Machine,
    after: Machine,
    result: Outcome,
    depth: nat,
)
    requires
        before.world.collections matches Some(cs) && cs.contains_key(target),
        runs(
            OperationView::Remove { target, count, filter: Some(filter), random },
            before,
            after,
            result,
            depth,
        ),
    ensures
        match crate::collections::filter_items(before.world.collections->0[target], filter) {
            Ok(items) => {
                &&& result is Ok
                &&& after.world.collections matches Some(cs) && cs.contains_key(target)
                &&& after.world.collections->0[target].len() == items.len() - taken_count(
                    count,
                    items.len(),
                )
            },
            Err(e) => result == Err::<(), ErrorView>(e) && after == before,
        },
{
    match crate::collections::filter_items(before.world.collections->0[target], filter) {
        Ok(items) => {
            let picks = choose|picks: Seq<int>|
                {
                    &&& picks.len() == taken_count(count, items.len())
                    &&& crate::collections::valid_picks(items.len(), picks)
                    &&& after.world == crate::semantics::world_with(
                        before.world,
                        before.world.collections->0.insert(
                            target,
                            (#[trigger] take_picks(items, picks)).0,
                        ),
                    )
                };
            lemma_take_picks_len(items, picks);
        },
        Err(e) => {},
    }
}

/// A removal that is not random takes the items from the end: it leaves the
/// front of the collection and binds what it took to `removed`, last item
/// first; a single item as itself.
pub proof fn law_remove_takes_from_the_end(
    target: Seq<char>,
    count: nat,
    random: Option<bool>,
    before: Machine,
    after: Machine,
    result: Outcome,
    depth: nat,
)
    requires
        random != Some(true),
        before.world.collections matches Some(cs) && cs.contains_key(target),
        runs(
            OperationView::Remove { target, count, filter: None, random },
            before,
            after,
            result,
            depth,
        ),
    ensures
        ({
            let items = before.world.collections->0[target];
            let k = taken_count(count, items.len());
            &&& after.world.collections->0[target] == items.take(items.len() - k)
            &&& after.context.variables.contains_key("removed"@)
            &&& after.context.variables["removed"@] == crate::semantics::removed_value(
                Seq::new(k, |j: int| items[items.len() - 1 - j]),
            )
        }),
{
    let items = before.world.collections->0[target];
    let k = taken_count(count, items.len());
    crate::collections::lemma_take_from_end(items, k);
}

/// The machine in which the body of an iteration runs for the item at
/// position `i`: the item is bound to `item` and the position to `index`.
pub open spec fn at_item(m: Machine, items: Seq<ValueView>, i: int) -> Machine {
    with_variable(
        with_variable(m, "item"@, items[i]),
        "index"@,
        ValueView::Int(low_bits(i as nat)),
    )
}

/// Whether `trace` holds the machines before, between and after `n` runs of
/// `body` that succeed, one for each of the items from position `from` on.
pub open spec fn iteration_trace(
    items: Seq<ValueView>,
    body: Seq<OperationView>,
    from: int,
    n: int,
    trace: Seq<Machine>,
    depth: nat,
) -> bool {
    &&& trace.len() == n + 1
    &&& forall|i: int|
        0 <= i < n ==> list_runs(
            body,
            0,
            at_item(#[trigger] trace[i], items, from + i),
            trace[i + 1],
            Ok::<(), ErrorView>(()),
            depth,
        )
}

proof fn lemma_iteration_trace(
    items: Seq<ValueView>,
    body: Seq<OperationView>,
    from: int,
    before: Machine,
    after: Machine,
    depth: nat,
)
    requires
        0 <= from <= items.len(),
        each_runs(items, body, from, before, after, Ok::<(), ErrorView>(()), depth),
    ensures
        exists|trace: Seq<Machine>|
            {
                &&& #[trigger] iteration_trace(items, body, from, items.len() - from, trace, depth)
                &&& trace[0] == before
                &&& trace[items.len() - from] == after
            },
    decreases items.len() - from,
{
    if from >= items.len() {
        let trace = seq![before];
        assert(iteration_trace(items, body, from, 0, trace, depth));
    } else {
        let (mid, r) = choose|mid: Machine, r: Outcome|
            {
                &&& #[trigger] between(mid, r)
                &&& list_runs(body, 0, at_item(before, items, from), mid, r, depth)
                &&& if r is Err {
                    after == mid && Ok::<(), ErrorView>(()) == r
                } else {
                    each_runs(items, body, from + 1, mid, after, Ok::<(), ErrorView>(()), depth)
                }
            };
        lemma_success_is_unique(r);
        lemma_iteration_trace(items, body, from + 1, mid, after, depth);
        let rest = choose|trace: Seq<Machine>|
            {
                &&& #[trigger] iteration_trace(
                    items,
                    body,
                    from + 1,
                    items.len() - from - 1,
                    trace,
                    depth,
                )
                &&& trace[0] == mid
                &&& trace[items.len() - from - 1] == after
            };
        let trace = seq![before] + rest;
        assert forall|i: int| 0 <= i < items.len() - from implies list_runs(
            body,
            0,
            at_item(#[trigger] trace[i], items, from + i),
            trace[i + 1],
            Ok::<(), ErrorView>(()),
            depth,
        ) by {
            if i > 0 {
                assert(trace[i] == rest[i - 1]);
                assert(trace[i + 1] == rest[i]);
                assert(list_runs(
                    body,
                    0,
                    at_item(rest[i - 1], items, from + 1 + (i - 1)),
                    rest[i - 1 + 1],
                    Ok::<(), ErrorView>(()),
                    depth,
                ));
            } else {
                assert(trace[0] == before);
                assert(trace[1] == rest[0]);
            }
        }
        assert(iteration_trace(items, body, from, items.len() - from, trace, depth));
    }
}

/// An iteration over `n` items that succeeds has run its body `n` times:
/// there are the `n + 1` machines before, between and after the runs, and
/// each run had its item bound to `item` and its position to `index`.
pub proof fn law_for_each_runs_once_per_item(
    collection: Seq<char>,
    body: Seq<OperationView>,
    before: Machine,
    after: Machine,
    depth: nat,
)
    requires
        before.world.collections is Some,
        runs(
            OperationView::ForEach { collection, operations: body },
            before,
            after,
            Ok::<(), ErrorView>(()),
            depth,
        ),
    ensures
        ({
            let items = crate::semantics::items_of(before.world.collections->0, collection);
            exists|trace: Seq<Machine>|
                {
                    &&& #[trigger] iteration_trace(items, body, 0, items.len() as int, trace, depth)
                    &&& trace[0] == before
                    &&& trace[items.len() as int] == after
                }
        }),
{
    let items = crate::semantics::items_of(before.world.collections->0, collection);
    lemma_iteration_trace(items, body, 0, before, after, depth);
}

/// Whether a body, where it succeeds, leaves the variable `name` of the
/// scope bound to what it was bound to.
pub open spec fn body_keeps(body: Seq<OperationView>, name: Seq<char>, depth: nat) -> bool {
    forall|m: Machine, n: Machine|
        m.context.variables.contains_key(name) && #[trigger] list_runs(
            body,
            0,
            m,
            n,
            Ok::<(), ErrorView>(()),
            depth,
        ) ==> n.context.variables.contains_key(name) && n.context.variables[name]
            == m.context.variables[name]
}

/// After an iteration over at least one item that succeeds, with a body
/// that leaves `item` and `index` alone, `item` is bound to the last item
/// and `index` to its position.
pub proof fn law_for_each_leaves_last_item(
    collection: Seq<char>,
    body: Seq<OperationView>,
    before: Machine,
    after: Machine,
    depth: nat,
)
    requires
        before.world.collections is Some,
        crate::semantics::items_of(before.world.collections->0, collection).len() > 0,
        body_keeps(body, "item"@, depth),
        body_keeps(body, "index"@, depth),
        runs(
            OperationView::ForEach { collection, operations: body },
            before,
            after,
            Ok::<(), ErrorView>(()),
            depth,
        ),
    ensures
        ({
            let items = crate::semantics::items_of(before.world.collections->0, collection);
            &&& after.context.variables.contains_key("item"@)
            &&& after.context.variables["item"@] == items.last()
            &&& after.context.variables.contains_key("index"@)
            &&& after.context.variables["index"@] == ValueView::Int(
                low_bits((items.len() - 1) as nat),
            )
        }),
{
    let items = crate::semantics::items_of(before.world.collections->0, collection);
    let n = items.len() as int;
    lemma_iteration_trace(items, body, 0, before, after, depth);
    let trace = choose|trace: Seq<Machine>|
        {
            &&& #[trigger] iteration_trace(items, body, 0, n, trace, depth)
            &&& trace[0] == before
            &&& trace[n] == after
        };
    let last = at_item(trace[n - 1], items, n - 1);
    assert(list_runs(body, 0, last, after, Ok::<(), ErrorView>(()), depth));
    lemma_at_item_binds(trace[n - 1], items, n - 1);
}

proof fn lemma_at_item_binds(m: Machine, items: Seq<ValueView>, i: int)
    ensures
        at_item(m, items, i).context.variables.contains_key("item"@),
        at_item(m, items, i).context.variables["item"@] == items[i],
        at_item(m, items, i).context.variables.contains_key("index"@),
        at_item(m, items, i).context.variables["index"@] == ValueView::Int(low_bits(i as nat)),
{
    reveal_strlit("item");
    reveal_strlit("index");
    assert("item"@.len() != "index"@.len());
}

/// Whether `trace` holds the machines before, between and after `n` runs of
/// `body` that succeed.
pub open spec fn loop_trace(body: Seq<OperationView>, n: int, trace: Seq<Machine>, depth: nat) -> bool {
    &&& trace.len() == n + 1
    &&& forall|i: int|
        0 <= i < n ==> list_runs(
            body,
            0,
            #[trigger] trace[i],
            trace[i + 1],
            Ok::<(), ErrorView>(()),
            depth,
        )
}

/// Whether a loop came to `result` and `after` by `n` runs of its body that
/// succeeded, of `left` that it was allowed: either it was allowed no more,
/// and failed for that, or a further run of the body failed.
pub open spec fn loop_ended(
    body: Seq<OperationView>,
    left: int,
    n: int,
    trace: Seq<Machine>,
    after: Machine,
    result: Outcome,
    depth: nat,
) -> bool {
    &&& 0 <= n <= left
    &&& loop_trace(body, n, trace, depth)
    &&& if n == left {
        trace[n] == after && result == Err::<(), ErrorView>(ErrorView::MaxIterationsReached)
    } else {
        result is Err && list_runs(body, 0, trace[n], after, result, depth)
    }
}

proof fn lemma_loop_always_true(
    condition: PredicateView,
    body: Seq<OperationView>,
    max: nat,
    done: nat,
    before: Machine,
    after: Machine,
    result: Outcome,
    depth: nat,
)
    requires
        done <= max,
        forall|m: Machine| #[trigger] state_verdict(condition, m) == Ok::<bool, ErrorView>(true),
        loop_runs(condition, body, max, done, before, after, result, depth),
    ensures
        exists|trace: Seq<Machine>, n: int|
            {
                &&& #[trigger] loop_ended(body, max - done, n, trace, after, result, depth)
                &&& trace[0] == before
            },
    decreases max - done,
{
    assert(state_verdict(condition, before) == Ok::<bool, ErrorView>(true));
    if done >= max {
        let trace = seq![before];
        assert(loop_ended(body, 0, 0, trace, after, result, depth));
    } else {
        let (mid, r) = choose|mid: Machine, r: Outcome|
            {
                &&& #[trigger] between(mid, r)
                &&& list_runs(body, 0, before, mid, r, depth)
                &&& if r is Err {
                    after == mid && result == r
                } else {
                    loop_runs(condition, body, max, done + 1, mid, after, result, depth)
                }
            };
        if r is Err {
            let trace = seq![before];
            assert(loop_ended(body, max - done, 0, trace, after, result, depth));
        } else {
            lemma_loop_always_true(condition, body, max, done + 1, mid, after, result, depth);
            let (rest, k) = choose|trace: Seq<Machine>, n: int|
                {
                    &&& #[trigger] loop_ended(
                        body,
                        max - done - 1,
                        n,
                        trace,
                        after,
                        result,
                        depth,
                    )
                    &&& trace[0] == mid
                };
            let trace = seq![before] + rest;
            assert forall|i: int| 0 <= i < k + 1 implies list_runs(
                body,
                0,
                #[trigger] trace[i],
                trace[i + 1],
                Ok::<(), ErrorView>(()),
                depth,
            ) by {
                if i > 0 {
                    assert(trace[i] == rest[i - 1]);
                    assert(trace[i + 1] == rest[i]);
                    assert(list_runs(
                        body,
                        0,
                        rest[i - 1],
                        rest[i - 1 + 1],
                        Ok::<(), ErrorView>(()),
                        depth,
                    ));
                } else {
                    lemma_success_is_unique(r);
                    assert(trace[0] == before);
                    assert(trace[1] == rest[0]);
                }
            }
            assert(trace[k + 1] == rest[k]);
            assert(loop_ended(body, max - done, k + 1, trace, after, result, depth));
        }
    }
}

/// A loop whose condition always holds, and whose bodies succeed, fails for
/// having reached its bound after exactly as many runs of its body as the
/// bound allows, and what the runs did stays done: there are the machines
/// before, between and after the runs, and the last is what the loop
/// leaves. The only other end is that a run of the body fails before.
pub proof fn law_while_stops_at_bound(
    condition: PredicateView,
    body: Seq<OperationView>,
    max: nat,
    before: Machine,
    after: Machine,
    result: Outcome,
    depth: nat,
)
    requires
        forall|m: Machine| #[trigger] state_verdict(condition, m) == Ok::<bool, ErrorView>(true),
        runs(
            OperationView::While { condition, operations: body, max_iterations: Some(max) },
            before,
            after,
            result,
            depth,
        ),
    ensures
        result is Err,
        exists|trace: Seq<Machine>, n: int|
            {
                &&& #[trigger] loop_ended(body, max as int, n, trace, after, result, depth)
                &&& trace[0] == before
            },
{
    lemma_loop_always_true(condition, body, max, 0, before, after, result, depth);
}

/// Whether an operation, with the bodies it holds, is free of chance and of
/// emitted events: it removes nothing at random and emits nothing, so that
/// what it does depends on nothing but the machine it starts on.
pub open spec fn settled(op: OperationView) -> bool
    decreases op,
{
    match op {
        OperationView::Remove { target, count, filter, random } => random != Some(true),
        OperationView::EmitEvent { event, data } => false,
        OperationView::IfCondition { condition, then_, else_ } => {
            &&& forall|i: int| 0 <= i < then_.len() ==> settled(#[trigger] then_[i])
            &&& match else_ {
                Some(ops) => forall|i: int| 0 <= i < ops.len() ==> settled(#[trigger] ops[i]),
                None => true,
            }
        },
        OperationView::While { condition, operations, max_iterations } => forall|i: int|
            0 <= i < operations.len() ==> settled(#[trigger] operations[i]),
        OperationView::ForEach { collection, operations } => forall|i: int|
            0 <= i < operations.len() ==> settled(#[trigger] operations[i]),
        _ => true,
    }
}

/// Whether all operations of a list are settled.
pub open spec fn all_settled(ops: Seq<OperationView>) -> bool {
    forall|i: int| 0 <= i < ops.len() ==> settled(#[trigger] ops[i])
}

/// A settled operation has one outcome: from the same machine it ends with
/// the same result and leaves the same machine.
pub proof fn law_settled_operations_have_one_outcome(
    op: OperationView,
    before: Machine,
    first: Machine,
    first_result: Outcome,
    second: Machine,
    second_result: Outcome,
    depth: nat,
)
    requires
        settled(op),
        runs(op, before, first, first_result, depth),
        runs(op, before, second, second_result, depth),
    ensures
        first == second,
        first_result == second_result,
    decreases depth, op, 0nat, 0nat,
{
    match op {
        OperationView::IfCondition { condition, then_, else_ } => {
            match state_verdict(condition, before) {
                Ok(true) => {
                    lemma_list_has_one_outcome(
                        then_,
                        0,
                        before,
                        first,
                        first_result,
                        second,
                        second_result,
                        depth,
                    );
                },
                Ok(false) => match else_ {
                    Some(ops) => {
                        lemma_list_has_one_outcome(
                            ops,
                            0,
                            before,
                            first,
                            first_result,
                            second,
                            second_result,
                            depth,
                        );
                    },
                    None => {},
                },
                Err(e) => {},
            }
        },
        OperationView::While { condition, operations, max_iterations } => {
            lemma_loop_has_one_outcome(
                condition,
                operations,
                match max_iterations {
                    Some(m) => m,
                    None => crate::semantics::DEFAULT_MAX_ITERATIONS as nat,
                },
                0,
                before,
                first,
                first_result,
                second,
                second_result,
                depth,
            );
        },
        OperationView::ForEach { collection, operations } => {
            match before.world.collections {
                Some(cs) => {
                    lemma_each_has_one_outcome(
                        crate::semantics::items_of(cs, collection),
                        operations,
                        0,
                        before,
                        first,
                        first_result,
                        second,
                        second_result,
                        depth,
                    );
                },
                None => {},
            }
        },
        OperationView::Remove { target, count, filter, random } => {
            lemma_removal_has_one_outcome(
                op,
                before,
                first,
                first_result,
                second,
                second_result,
                depth,
            );
        },
        _ => {},
    }
}

proof fn lemma_removal_has_one_outcome(
    op: OperationView,
    before: Machine,
    first: Machine,
    first_result: Outcome,
    second: Machine,
    second_result: Outcome,
    depth: nat,
)
    requires
        op matches OperationView::Remove { target, count, filter, random } && random != Some(true),
        runs(op, before, first, first_result, depth),
        runs(op, before, second, second_result, depth),
    ensures
        first == second,
        first_result == second_result,
{
    let target = op->Remove_target;
    let count = op->Remove_count;
    let filter = op->Remove_filter;
    match before.world.collections {
        Some(cs) => {
            if cs.contains_key(target) {
                let filtered = match filter {
                    Some(p) => crate::collections::filter_items(cs[target], p),
                    None => Ok(cs[target]),
                };
                match filtered {
                    Ok(items) => {
                        let k = taken_count(count, items.len());
                        let picks = crate::collections::picks_from_end(items.len(), k);
                        assert(first.world == crate::semantics::world_with(
                            before.world,
                            cs.insert(target, take_picks(items, picks).0),
                        ));
                        assert(second.world == crate::semantics::world_with(
                            before.world,
                            cs.insert(target, take_picks(items, picks).0),
                        ));
                        assert(first.context == second.context);
                    },
                    Err(e) => {},
                }
            }
        },
        None => {},
    }
}

proof fn lemma_list_has_one_outcome(
    ops: Seq<OperationView>,
    from: int,
    before: Machine,
    first: Machine,
    first_result: Outcome,
    second: Machine,
    second_result: Outcome,
    depth: nat,
)
    requires
        all_settled(ops),
        list_runs(ops, from, before, first, first_result, depth),
        list_runs(ops, from, before, second, second_result, depth),
    ensures
        first == second,
        first_result == second_result,
    decreases depth, ops, 0nat, ops.len() - from,
{
    if 0 <= from < ops.len() {
        let (m1, r1) = choose|mid: Machine, r: Outcome|
            {
                &&& #[trigger] between(mid, r)
                &&& runs(ops[from], before, mid, r, depth)
                &&& if r is Err {
                    first == mid && first_result == r
                } else {
                    list_runs(ops, from + 1, mid, first, first_result, depth)
                }
            };
        let (m2, r2) = choose|mid: Machine, r: Outcome|
            {
                &&& #[trigger] between(mid, r)
                &&& runs(ops[from], before, mid, r, depth)
                &&& if r is Err {
                    second == mid && second_result == r
                } else {
                    list_runs(ops, from + 1, mid, second, second_result, depth)
                }
            };
        law_settled_operations_have_one_outcome(ops[from], before, m1, r1, m2, r2, depth);
        if r1 is Ok {
            lemma_list_has_one_outcome(
                ops,
                from + 1,
                m1,
                first,
                first_result,
                second,
                second_result,
                depth,
            );
        }
    }
}

proof fn lemma_loop_has_one_outcome(
    condition: PredicateView,
    body: Seq<OperationView>,
    max: nat,
    done: nat,
    before: Machine,
    first: Machine,
    first_result: Outcome,
    second: Machine,
    second_result: Outcome,
    depth: nat,
)
    requires
        all_settled(body),
        loop_runs(condition, body, max, done, before, first, first_result, depth),
        loop_runs(condition, body, max, done, before, second, second_result, depth),
    ensures
        first == second,
        first_result == second_result,
    decreases depth, body, 1nat, max - done,
{
    if state_verdict(condition, before) == Ok::<bool, ErrorView>(true) && done < max {
        let (m1, r1) = choose|mid: Machine, r: Outcome|
            {
                &&& #[trigger] between(mid, r)
                &&& list_runs(body, 0, before, mid, r, depth)
                &&& if r is Err {
                    first == mid && first_result == r
                } else {
                    loop_runs(condition, body, max, done + 1, mid, first, first_result, depth)
                }
            };
        let (m2, r2) = choose|mid: Machine, r: Outcome|
            {
                &&& #[trigger] between(mid, r)
                &&& list_runs(body, 0, before, mid, r, depth)
                &&& if r is Err {
                    second == mid && second_result == r
                } else {
                    loop_runs(condition, body, max, done + 1, mid, second, second_result, depth)
                }
            };
        lemma_list_has_one_outcome(body, 0, before, m1, r1, m2, r2, depth);
        if r1 is Ok {
            lemma_loop_has_one_outcome(
                condition,
                body,
                max,
                done + 1,
                m1,
                first,
                first_result,
                second,
                second_result,
                depth,
            );
        }
    }
}

proof fn lemma_each_has_one_outcome(
    items: Seq<ValueView>,
    body: Seq<OperationView>,
    from: int,
    before: Machine,
    first: Machine,
    first_result: Outcome,
    second: Machine,
    second_result: Outcome,
    depth: nat,
)
    requires
        all_settled(body),
        each_runs(items, body, from, before, first, first_result, depth),
        each_runs(items, body, from, before, second, second_result, depth),
    ensures
        first == second,
        first_result == second_result,
    decreases depth, body, 1nat, items.len() - from,
{
    if 0 <= from < items.len() {
        let start = at_item(before, items, from);
        let (m1, r1) = choose|mid: Machine, r: Outcome|
            {
                &&& #[trigger] between(mid, r)
                &&& list_runs(body, 0, start, mid, r, depth)
                &&& if r is Err {
                    first == mid && first_result == r
                } else {
                    each_runs(items, body, from + 1, mid, first, first_result, depth)
                }
            };
        let (m2, r2) = choose|mid: Machine, r: Outcome|
            {
                &&& #[trigger] between(mid, r)
                &&& list_runs(body, 0, start, mid, r, depth)
                &&& if r is Err {
                    second == mid && second_result == r
                } else {
                    each_runs(items, body, from + 1, mid, second, second_result, depth)
                }
            };
        lemma_list_has_one_outcome(body, 0, start, m1, r1, m2, r2, depth);
        if r1 is Ok {
            lemma_each_has_one_outcome(
                items,
                body,
                from + 1,
                m1,
                first,
                first_result,
                second,
                second_result,
                depth,
            );
        }
    }
}

} // verus!
