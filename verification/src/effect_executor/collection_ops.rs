//! Operations that change a collection.

use crate::collections::{lemma_take_picks_view, take_picks, valid_picks, CollectionManager};
use crate::effect::{EffectContext, EffectOperation, OperationView, Predicate, PredicateView};
use crate::error::{outcome_view, EffectError, EffectResult};
use crate::resources::World;
use crate::semantics::{
    collection_op_runs, is_collection_op, no_collections, taken_count, world_op_runs,
};
use crate::value::{values_view, Value};
use vstd::prelude::*;

verus! {

fn collections_missing() -> (r: EffectError)
    ensures
        r@ == no_collections(),
{
    EffectError::OperationError("CollectionManager not available".to_string())
}

/// Runs `operation` if it filters, removes from, appends to or inserts into
/// a collection; hands back nothing, and changes nothing, if it is another.
pub fn execute_collection_operation(
    operation: &EffectOperation,
    context: &mut EffectContext,
    world: &mut World,
) -> (r: Option<EffectResult>)
    ensures
        match r {
            Some(res) => is_collection_op(operation@) && collection_op_runs(
                operation@,
                old(context)@,
                old(world)@,
                final(context)@,
                final(world)@,
                outcome_view(res),
            ),
            None => {
                &&& !is_collection_op(operation@)
                &&& *final(context) == *old(context)
                &&& *final(world) == *old(world)
            },
        },
{
    match operation {
        EffectOperation::Filter { target, predicate } => Some(
            execute_filter(target.as_str(), predicate, world),
        ),
        EffectOperation::Remove { target, count, filter, random } => Some(
            execute_remove(target.as_str(), *count, filter.as_ref(), *random, context, world),
        ),
        EffectOperation::Append { target, item } => Some(
            execute_append(target.as_str(), item, world),
        ),
        EffectOperation::Insert { target, index, item } => Some(
            execute_insert(target.as_str(), *index, item, world),
        ),
        _ => None,
    }
}

/// Keeps the items of the collection `target` that satisfy `predicate`.
pub fn execute_filter(target: &str, predicate: &Predicate, world: &mut World) -> (r: EffectResult)
    ensures
        world_op_runs(
            OperationView::Filter { target: target@, predicate: predicate@ },
            old(world)@,
            final(world)@,
            outcome_view(r),
        ),
{
    match &mut world.collections {
        Some(collections) => {
            let ghost cs = collections@;
            match collections.get_mut(target) {
                Some(collection) => {
                    let r = collection.retain_matching(predicate);
                    proof {
                        assert(cs.insert(target@, cs[target@]) =~= cs);
                    }
                    r
                },
                None => Ok(()),
            }
        },
        None => Err(collections_missing()),
    }
}

/// The content of a filter that may be missing.
pub open spec fn filter_view(filter: Option<&Predicate>) -> Option<PredicateView> {
    match filter {
        Some(p) => Some(p@),
        None => None,
    }
}

/// Takes up to `count` items out of the collection `target`, after it has
/// been filtered if there is a filter, and binds what was taken to the
/// variable `removed`.
pub fn execute_remove(
    target: &str,
    count: usize,
    filter: Option<&Predicate>,
    random: Option<bool>,
    context: &mut EffectContext,
    world: &mut World,
) -> (r: EffectResult)
    ensures
        collection_op_runs(
            OperationView::Remove {
                target: target@,
                count: count as nat,
                filter: filter_view(filter),
                random,
            },
            old(context)@,
            old(world)@,
            final(context)@,
            final(world)@,
            outcome_view(r),
        ),
{
    let at_random: bool = match random {
        Some(flag) => flag,
        None => false,
    };
    match &mut world.collections {
        Some(collections) => {
            let ghost cs = collections@;
            match collections.get_mut(target) {
                Some(collection) => {
                    match filter {
                        Some(predicate) => {
                            match collection.retain_matching(predicate) {
                                Ok(_) => {},
                                Err(e) => {
                                    proof {
                                        assert(cs.insert(target@, cs[target@]) =~= cs);
                                    }
                                    return Err(e);
                                },
                            }
                        },
                        None => {},
                    }
                    let ghost items = collection.items@;
                    let mut removed = collection.remove(count, at_random);
                    proof {
                        let picks = choose|picks: Seq<int>|
                            {
                                &&& picks.len() == taken_count(count as nat, items.len())
                                &&& valid_picks(items.len(), picks)
                                &&& !at_random ==> picks == crate::collections::picks_from_end(
                                    items.len(),
                                    taken_count(count as nat, items.len()),
                                )
                                &&& (collection.items@, removed@) == #[trigger] take_picks(
                                    items,
                                    picks,
                                )
                            };
                        lemma_take_picks_view(items, picks);
                        assert(take_picks(values_view(items), picks).0 == collection@);
                        assert(take_picks(values_view(items), picks).1 == values_view(removed@));
                    }
                    let gone: Value = if removed.len() == 1 {
                        removed.remove(0)
                    } else {
                        let ghost whole = values_view(removed@);
                        let list = Value::Array(removed);
                        proof {
                            assert(list@->Array_0 =~= whole);
                        }
                        list
                    };
                    context.set_variable("removed".to_string(), gone);
                    Ok(())
                },
                None => Ok(()),
            }
        },
        None => Err(collections_missing()),
    }
}

/// Adds a copy of `item` at the end of the collection `target`.
pub fn execute_append(target: &str, item: &Value, world: &mut World) -> (r: EffectResult)
    ensures
        world_op_runs(
            OperationView::Append { target: target@, item: item@ },
            old(world)@,
            final(world)@,
            outcome_view(r),
        ),
{
    match &mut world.collections {
        Some(collections) => {
            let collection = collections.get_or_create(target);
            collection.append(item.duplicate());
            Ok(())
        },
        None => Err(collections_missing()),
    }
}

/// Adds a copy of `item` at `index` of the collection `target`, or at its
/// end if it is shorter.
pub fn execute_insert(target: &str, index: usize, item: &Value, world: &mut World) -> (r:
    EffectResult)
    ensures
        world_op_runs(
            OperationView::Insert { target: target@, index: index as nat, item: item@ },
            old(world)@,
            final(world)@,
            outcome_view(r),
        ),
{
    match &mut world.collections {
        Some(collections) => {
            let collection = collections.get_or_create(target);
            collection.insert(index, item.duplicate());
            Ok(())
        },
        None => Err(collections_missing()),
    }
}

} // verus!
