//! Named, ordered lists of values, and predicates on their items.

use crate::assoc::{bound, drop_binding, find_binding, put_binding};
use crate::effect::{predicates_view, Comparison, Predicate, PredicateView};
use crate::error::{verdict_view, EffectError, EffectResult, ErrorView};
use crate::text::{chars_of, contains_seq, find_char, index_of_from, search};
use crate::value::{
    duplicate_values, find_entry, numeric_micros, value_view, values_view, Value, ValueView,
};
use rand::seq::SliceRandom;
use vstd::prelude::*;

verus! {

/// The items of `items` whose flag in `keep` is set, in order.
pub open spec fn flagged<T>(items: Seq<T>, keep: Seq<bool>) -> Seq<T>
    decreases items.len(),
{
    if items.len() == 0 || keep.len() != items.len() {
        Seq::empty()
    } else if keep.last() {
        flagged(items.drop_last(), keep.drop_last()).push(items.last())
    } else {
        flagged(items.drop_last(), keep.drop_last())
    }
}

/// Takes a list apart and keeps the items whose flag is set.
pub fn keep_flagged<T>(items: Vec<T>, keep: &Vec<bool>) -> (r: Vec<T>)
    requires
        keep.len() == items.len(),
    ensures
        r@ == flagged(items@, keep@),
{
    let mut out: Vec<T> = Vec::new();
    let ghost all = items@;
    let mut i: usize = 0;
    for item in it: items
        invariant
            it.seq() == all,
            keep.len() == all.len(),
            i == it.index(),
            out@ == flagged(all.take(it.index() as int), keep@.take(it.index() as int)),
    {
        let ghost n = it.index() as int;
        proof {
            assert(all.take(n + 1).drop_last() =~= all.take(n));
            assert(keep@.take(n + 1).drop_last() =~= keep@.take(n));
        }
        if keep[i] {
            out.push(item);
        }
        i += 1;
    }
    proof {
        assert(all.take(all.len() as int) =~= all);
        assert(keep@.take(all.len() as int) =~= keep@);
    }
    out
}

/// What is left of `items`, and what was taken, after taking out the items at
/// the positions `picks`, one after another: each position counts in what the
/// picks before it have left.
pub open spec fn take_picks<T>(items: Seq<T>, picks: Seq<int>) -> (Seq<T>, Seq<T>)
    decreases picks.len(),
{
    if picks.len() == 0 {
        (items, Seq::empty())
    } else {
        let before = take_picks(items, picks.drop_last());
        (before.0.remove(picks.last()), before.1.push(before.0[picks.last()]))
    }
}

/// Whether each of `picks` is a position in what the picks before it leave of
/// a list of `len` items.
pub open spec fn valid_picks(len: nat, picks: Seq<int>) -> bool {
    forall|j: int| 0 <= j < picks.len() ==> 0 <= #[trigger] picks[j] < len - j
}

/// The picks that take `k` items from the end of a list of `len` items.
pub open spec fn picks_from_end(len: nat, k: nat) -> Seq<int> {
    Seq::new(k, |j: int| len - 1 - j)
}

/// Valid picks leave as many items as they do not take.
pub proof fn lemma_take_picks_len<T>(items: Seq<T>, picks: Seq<int>)
    requires
        valid_picks(items.len(), picks),
        picks.len() <= items.len(),
    ensures
        take_picks(items, picks).0.len() == items.len() - picks.len(),
        take_picks(items, picks).1.len() == picks.len(),
    decreases picks.len(),
{
    if picks.len() > 0 {
        lemma_take_picks_len(items, picks.drop_last());
    }
}

/// Taking from the end leaves the front and hands the end out backwards.
pub proof fn lemma_take_from_end<T>(items: Seq<T>, k: nat)
    requires
        k <= items.len(),
    ensures
        valid_picks(items.len(), picks_from_end(items.len(), k)),
        take_picks(items, picks_from_end(items.len(), k)).0 == items.take(items.len() - k),
        take_picks(items, picks_from_end(items.len(), k)).1 == Seq::new(
            k,
            |j: int| items[items.len() - 1 - j],
        ),
    decreases k,
{
    let len = items.len();
    let picks = picks_from_end(len, k);
    if k > 0 {
        lemma_take_from_end(items, (k - 1) as nat);
        assert(picks.drop_last() =~= picks_from_end(len, (k - 1) as nat));
        let before = take_picks(items, picks.drop_last());
        assert(before.0.remove(picks.last()) =~= items.take(len - k));
        assert(before.1.push(before.0[picks.last()]) =~= Seq::new(
            k,
            |j: int| items[len - 1 - j],
        ));
    } else {
        assert(items.take(len as int) =~= items);
        assert(take_picks(items, picks).1 =~= Seq::new(k, |j: int| items[len - 1 - j]));
    }
}

/// Taking picks from the contents of values is taking them from the values.
pub proof fn lemma_take_picks_view(items: Seq<Value>, picks: Seq<int>)
    requires
        valid_picks(items.len(), picks),
        picks.len() <= items.len(),
    ensures
        take_picks(values_view(items), picks).0 == values_view(take_picks(items, picks).0),
        take_picks(values_view(items), picks).1 == values_view(take_picks(items, picks).1),
    decreases picks.len(),
{
    if picks.len() > 0 {
        lemma_take_picks_view(items, picks.drop_last());
        lemma_take_picks_len(items, picks.drop_last());
        let before = take_picks(items, picks.drop_last());
        let p = picks.last();
        assert(values_view(before.0).remove(p) =~= values_view(before.0.remove(p)));
        assert(values_view(before.1).push(value_view(before.0[p])) =~= values_view(
            before.1.push(before.0[p]),
        ));
    } else {
        assert(values_view(Seq::<Value>::empty()) =~= Seq::<ValueView>::empty());
    }
}

/// The positions of a list of `len` items, in order.
fn positions(len: usize) -> (r: Vec<usize>)
    ensures
        r.len() == len,
        forall|i: int| 0 <= i < len ==> r[i] == i,
{
    let mut out: Vec<usize> = Vec::new();
    let mut i: usize = 0;
    while i < len
        invariant
            i <= len,
            out.len() == i,
            forall|j: int| 0 <= j < i ==> out[j] == j,
        decreases len - i,
    {
        out.push(i);
        i += 1;
    }
    out
}

/// One of `choices`, picked at random, by `rand::seq::SliceRandom::choose`
/// with the generator of the running thread. All that is claimed is that the
/// result is an element of `choices`, and that there is one unless `choices`
/// is empty.
#[verifier::external_body]
pub(crate) fn choose_one(choices: &Vec<usize>) -> (r: Option<usize>)
    ensures
        match r {
            Some(x) => choices@.contains(x),
            None => choices.len() == 0,
        },
{
    choices.choose(&mut rand::thread_rng()).copied()
}

/// An ordered list of values that effects can change.
#[derive(Debug, Clone)]
pub struct Collection {
    pub items: Vec<Value>,
}

impl View for Collection {
    type V = Seq<ValueView>;

    open spec fn view(&self) -> Seq<ValueView> {
        values_view(self.items@)
    }
}

impl Collection {
    /// An empty collection.
    pub fn new() -> (r: Collection)
        ensures
            r.items@ == Seq::<Value>::empty(),
            r@ == Seq::<ValueView>::empty(),
    {
        let r = Collection { items: Vec::new() };
        proof {
            assert(r@ =~= Seq::<ValueView>::empty());
        }
        r
    }

    /// The collection of `items`, in their order.
    pub fn from_vec(items: Vec<Value>) -> (r: Collection)
        ensures
            r.items == items,
    {
        Collection { items }
    }

    /// Keeps the items for which `predicate` returns true, in their order.
    pub fn filter<F: Fn(&Value) -> bool>(&mut self, predicate: F)
        requires
            forall|v: &Value| #[trigger] predicate.requires((v,)),
        ensures
            exists|keep: Seq<bool>|
                {
                    &&& keep.len() == old(self).items.len()
                    &&& forall|i: int|
                        0 <= i < keep.len() ==> predicate.ensures(
                            (&old(self).items[i],),
                            #[trigger] keep[i],
                        )
                    &&& final(self).items@ == flagged(old(self).items@, keep)
                },
    {
        let mut keep: Vec<bool> = Vec::new();
        let mut i: usize = 0;
        while i < self.items.len()
            invariant
                i <= self.items.len(),
                keep.len() == i,
                self.items == old(self).items,
                forall|v: &Value| #[trigger] predicate.requires((v,)),
                forall|j: int|
                    0 <= j < i ==> predicate.ensures((&self.items[j],), #[trigger] keep[j]),
            decreases self.items.len() - i,
        {
            let flag = predicate(&self.items[i]);
            keep.push(flag);
            i += 1;
        }
        let mut taken: Vec<Value> = Vec::new();
        std::mem::swap(&mut self.items, &mut taken);
        self.items = keep_flagged(taken, &keep);
    }

    /// Takes out `picks.len()` items: the one at the first position of
    /// `picks`, then the one at the second position in what is left, and so
    /// on. Returns the items taken, in that order.
    pub fn remove_picked(&mut self, picks: &Vec<usize>) -> (r: Vec<Value>)
        requires
            picks.len() <= old(self).items.len(),
            valid_picks(old(self).items.len() as nat, picks@.map_values(|p: usize| p as int)),
        ensures
            (final(self).items@, r@) == take_picks(
                old(self).items@,
                picks@.map_values(|p: usize| p as int),
            ),
    {
        let ghost all = picks@.map_values(|p: usize| p as int);
        let mut removed: Vec<Value> = Vec::new();
        let mut i: usize = 0;
        while i < picks.len()
            invariant
                i <= picks.len(),
                picks.len() <= old(self).items.len(),
                all == picks@.map_values(|p: usize| p as int),
                valid_picks(old(self).items.len() as nat, all),
                self.items.len() == old(self).items.len() - i,
                (self.items@, removed@) == take_picks(old(self).items@, all.take(i as int)),
            decreases picks.len() - i,
        {
            proof {
                assert(all.take(i + 1).drop_last() =~= all.take(i as int));
                assert(all[i as int] == picks[i as int]);
            }
            let item = self.items.remove(picks[i]);
            removed.push(item);
            i += 1;
        }
        proof {
            assert(all.take(picks.len() as int) =~= all);
        }
        removed
    }

    /// Takes out `count` items, or all of them if there are fewer: from the
    /// end, last item first, or, with `random`, each from a position picked
    /// at random in what is left. Returns the items taken, in the order in
    /// which they were taken.
    pub fn remove(&mut self, count: usize, random: bool) -> (r: Vec<Value>)
        ensures
            ({
                let len = old(self).items.len() as nat;
                let k = if count <= len {
                    count as nat
                } else {
                    len
                };
                &&& r.len() == k
                &&& final(self).items.len() == len - k
                &&& exists|picks: Seq<int>|
                    {
                        &&& picks.len() == k
                        &&& valid_picks(len, picks)
                        &&& !random ==> picks == picks_from_end(len, k)
                        &&& (final(self).items@, r@) == #[trigger] take_picks(
                            old(self).items@,
                            picks,
                        )
                    }
            }),
    {
        let len = self.items.len();
        let count = if count <= len {
            count
        } else {
            len
        };
        let mut removed: Vec<Value> = Vec::new();
        let ghost picks: Seq<int> = Seq::empty();
        let mut i: usize = 0;
        while i < count
            invariant
                i <= count <= len,
                len == old(self).items.len(),
                self.items.len() == len - i,
                removed.len() == i,
                picks.len() == i,
                valid_picks(len as nat, picks),
                !random ==> picks == picks_from_end(len as nat, i as nat),
                (self.items@, removed@) == take_picks(old(self).items@, picks),
            decreases count - i,
        {
            let at: usize = if random {
                let choices = positions(self.items.len());
                match choose_one(&choices) {
                    Some(x) => {
                        proof {
                            let w = choose|w: int| 0 <= w < choices.len() && choices[w] == x;
                            assert(x == w);
                        }
                        x
                    },
                    None => 0,
                }
            } else {
                self.items.len() - 1
            };
            let item = self.items.remove(at);
            removed.push(item);
            proof {
                let before = picks;
                picks = picks.push(at as int);
                assert(picks.drop_last() =~= before);
                if !random {
                    assert(picks =~= picks_from_end(len as nat, (i + 1) as nat));
                }
            }
            i += 1;
        }
        removed
    }

    /// Adds an item at the end.
    pub fn append(&mut self, item: Value)
        ensures
            final(self).items@ == old(self).items@.push(item),
            final(self)@ == old(self)@.push(item@),
    {
        self.items.push(item);
        proof {
            assert(self@ =~= old(self)@.push(item@));
        }
    }

    /// Adds an item at `index`, or at the end if the collection is shorter.
    pub fn insert(&mut self, index: usize, item: Value)
        ensures
            final(self).items@ == if index <= old(self).items.len() {
                old(self).items@.insert(index as int, item)
            } else {
                old(self).items@.push(item)
            },
            final(self)@ == inserted(old(self)@, index as nat, item@),
    {
        if index <= self.items.len() {
            self.items.insert(index, item);
        } else {
            self.items.push(item);
        }
        proof {
            assert(self@ =~= inserted(old(self)@, index as nat, item@));
        }
    }

    /// The number of items.
    pub fn len(&self) -> (r: usize)
        ensures
            r == self.items.len(),
            r == self@.len(),
    {
        self.items.len()
    }

    /// Whether there is no item.
    pub fn is_empty(&self) -> (r: bool)
        ensures
            r == (self@.len() == 0),
    {
        self.items.len() == 0
    }

    /// The item at `index`, if there is one.
    pub fn get(&self, index: usize) -> (r: Option<&Value>)
        ensures
            r == if index < self.items.len() {
                Some(&self.items[index as int])
            } else {
                None
            },
    {
        if index < self.items.len() {
            Some(&self.items[index])
        } else {
            None
        }
    }

    /// The item at `index`, to be changed in place, if there is one. What
    /// the caller leaves in it is the item at `index` afterwards.
    pub fn get_mut(&mut self, index: usize) -> (r: Option<&mut Value>)
        ensures
            match r {
                Some(item) => {
                    &&& index < old(self).items.len()
                    &&& *item == old(self).items[index as int]
                    &&& final(self).items@ == old(self).items@.update(index as int, *final(item))
                },
                None => index >= old(self).items.len() && *final(self) == *old(self),
            },
    {
        if index < self.items.len() {
            Some(&mut self.items[index])
        } else {
            None
        }
    }

    /// An iterator over the items, in their order.
    pub fn iter(&self) -> (r: std::slice::Iter<'_, Value>)
        ensures
            vstd::std_specs::iter::IteratorSpec::remaining(&r).unref() == self.items@,
    {
        let items = self.items.as_slice();
        proof {
            vstd::std_specs::slice::axiom_spec_slice_iter(items);
            assert(items@.as_ref().unref() =~= items@);
        }
        items.iter()
    }

    /// A copy of the items, in their order.
    pub fn to_vec(&self) -> (r: Vec<Value>)
        ensures
            values_view(r@) == self@,
    {
        duplicate_values(&self.items)
    }
}

/// A list with `item` added at `index`, or at the end if the list is shorter.
pub open spec fn inserted<T>(items: Seq<T>, index: nat, item: T) -> Seq<T> {
    if index <= items.len() {
        items.insert(index as int, item)
    } else {
        items.push(item)
    }
}

impl Default for Collection {
    fn default() -> (r: Collection)
        ensures
            r@ == Seq::<ValueView>::empty(),
    {
        Collection::new()
    }
}

/// The value that a dotted path leads to inside an item: each part of the
/// path names a key of the object reached so far.
pub open spec fn field_of(item: ValueView, path: Seq<char>) -> Option<ValueView>
    decreases path.len(),
{
    match item {
        ValueView::Object(m) => {
            let cut = index_of_from(path, '.', 0);
            let key = path.take(cut);
            if !m.contains_key(key) {
                None
            } else if cut < 0 || cut >= path.len() {
                Some(m[key])
            } else {
                field_of(m[key], path.skip(cut + 1))
            }
        },
        _ => None,
    }
}

/// How two numbers compare.
pub open spec fn compare_numbers(how: Comparison, a: int, b: int) -> bool {
    match how {
        Comparison::Equals => a == b,
        Comparison::NotEquals => a != b,
        Comparison::GreaterThan => a > b,
        Comparison::LessThan => a < b,
        Comparison::GreaterOrEqual => a >= b,
        Comparison::LessOrEqual => a <= b,
    }
}

/// The error of a comparison that meets a value that is no number.
pub open spec fn not_a_number() -> ErrorView {
    ErrorView::InvalidValue("Not a number"@)
}

/// How a field of an item compares with a value. A field that is missing
/// equals nothing and is in no order; an order between values that are not
/// both numbers is an error.
pub open spec fn item_compare(how: Comparison, found: Option<ValueView>, value: ValueView) -> Result<
    bool,
    ErrorView,
> {
    match how {
        Comparison::Equals => Ok(found == Some(value)),
        Comparison::NotEquals => Ok(found != Some(value)),
        _ => match found {
            None => Ok(false),
            Some(current) => match (numeric_micros(current), numeric_micros(value)) {
                (Some(a), Some(b)) => Ok(compare_numbers(how, a, b)),
                _ => Err(not_a_number()),
            },
        },
    }
}

/// Whether the field is a list that holds the tag as a text.
pub open spec fn item_has_tag(found: Option<ValueView>, tag: Seq<char>) -> bool {
    found matches Some(ValueView::Array(tags)) && tags.contains(ValueView::String(tag))
}

/// Whether the field is a list that holds the value, or a text in which the
/// value, a text too, occurs.
pub open spec fn item_contains(found: Option<ValueView>, value: ValueView) -> bool {
    match found {
        Some(ValueView::Array(items)) => items.contains(value),
        Some(ValueView::String(s)) => value matches ValueView::String(part) && contains_seq(
            s,
            part,
        ),
        _ => false,
    }
}

/// What a predicate says of one item.
pub open spec fn item_verdict(p: PredicateView, item: ValueView) -> Result<bool, ErrorView>
    decreases p,
{
    match p {
        PredicateView::Compare { how, field, value } => item_compare(
            how,
            field_of(item, field),
            value,
        ),
        PredicateView::HasTag { tag } => Ok(item_has_tag(field_of(item, "tags"@), tag)),
        PredicateView::IsType { card_type } => Ok(
            field_of(item, "type"@) == Some(ValueView::String(card_type)),
        ),
        PredicateView::Contains { field, value } => Ok(item_contains(field_of(item, field), value)),
        PredicateView::And { predicates } => item_all(predicates, item, 0),
        PredicateView::Or { predicates } => item_any(predicates, item, 0),
        PredicateView::Not { predicate } => match item_verdict(*predicate, item) {
            Ok(b) => Ok(!b),
            Err(e) => Err(e),
        },
        PredicateView::Expression { expr } => Ok(false),
    }
}

/// Whether all predicates from position `from` on hold of the item: they are
/// asked in order, up to the first that fails or does not hold.
pub open spec fn item_all(ps: Seq<PredicateView>, item: ValueView, from: int) -> Result<
    bool,
    ErrorView,
>
    decreases ps, ps.len() - from,
{
    if from < 0 || from >= ps.len() {
        Ok(true)
    } else {
        match item_verdict(ps[from], item) {
            Ok(true) => item_all(ps, item, from + 1),
            other => other,
        }
    }
}

/// Whether some predicate from position `from` on holds of the item: they are
/// asked in order, up to the first that fails or holds.
pub open spec fn item_any(ps: Seq<PredicateView>, item: ValueView, from: int) -> Result<
    bool,
    ErrorView,
>
    decreases ps, ps.len() - from,
{
    if from < 0 || from >= ps.len() {
        Ok(false)
    } else {
        match item_verdict(ps[from], item) {
            Ok(false) => item_any(ps, item, from + 1),
            other => other,
        }
    }
}

proof fn lemma_index_of_skip(s: Seq<char>, c: char, start: int, from: int)
    requires
        0 <= start <= from <= s.len(),
    ensures
        index_of_from(s.skip(start), c, from - start) + start == index_of_from(s, c, from),
    decreases s.len() - from,
{
    if from < s.len() && s[from] != c {
        lemma_index_of_skip(s, c, start, from + 1);
    }
}

/// The value that a dotted path leads to inside an item.
pub fn get_field_value<'a>(item: &'a Value, field: &str) -> (r: Option<&'a Value>)
    ensures
        match field_of(item@, field@) {
            Some(v) => r matches Some(x) && x@ == v,
            None => r is None,
        },
{
    let chars = chars_of(field);
    let mut current: &Value = item;
    let mut start: usize = 0;
    proof {
        assert(field@.skip(0) =~= field@);
    }
    loop
        invariant
            start <= chars.len(),
            chars@ == field@,
            field_of(item@, field@) == field_of(current@, field@.skip(start as int)),
        decreases chars.len() - start,
    {
        match current {
            Value::Object(entries) => {
                let cut = find_char(&chars, '.', start);
                let key = field.substring_char(start, cut);
                proof {
                    lemma_index_of_skip(field@, '.', start as int, start as int);
                    assert(field@.skip(start as int).take(cut - start) =~= key@);
                    if cut < chars.len() {
                        assert(field@.skip(start as int).skip(cut - start + 1) =~= field@.skip(
                            cut + 1,
                        ));
                    }
                }
                match find_entry(entries, key) {
                    None => {
                        return None;
                    },
                    Some(i) => {
                        if cut >= chars.len() {
                            return Some(&entries[i].1);
                        }
                        current = &entries[i].1;
                        start = cut + 1;
                    },
                }
            },
            _ => {
                return None;
            },
        }
    }
}

/// How two values compare as numbers; an error unless both are numbers.
pub fn compare_values(a: &Value, b: &Value, how: &Comparison) -> (r: Result<bool, EffectError>)
    ensures
        verdict_view(r) == match (numeric_micros(a@), numeric_micros(b@)) {
            (Some(x), Some(y)) => Ok::<bool, ErrorView>(compare_numbers(*how, x, y)),
            _ => Err(not_a_number()),
        },
{
    match (a.as_micros(), b.as_micros()) {
        (Some(x), Some(y)) => Ok(
            match how {
                Comparison::Equals => x == y,
                Comparison::NotEquals => x != y,
                Comparison::GreaterThan => x > y,
                Comparison::LessThan => x < y,
                Comparison::GreaterOrEqual => x >= y,
                Comparison::LessOrEqual => x <= y,
            },
        ),
        _ => Err(EffectError::InvalidValue("Not a number".to_string())),
    }
}

fn compare_field(found: Option<&Value>, value: &Value, how: Comparison) -> (r: Result<
    bool,
    EffectError,
>)
    ensures
        verdict_view(r) == item_compare(
            how,
            match found {
                Some(v) => Some(v@),
                None => None,
            },
            value@,
        ),
{
    match how {
        Comparison::Equals => Ok(
            match found {
                Some(v) => v.same(value),
                None => false,
            },
        ),
        Comparison::NotEquals => Ok(
            match found {
                Some(v) => !v.same(value),
                None => true,
            },
        ),
        _ => match found {
            None => Ok(false),
            Some(v) => compare_values(v, value, &how),
        },
    }
}

fn holds_tag(found: Option<&Value>, tag: &str) -> (r: bool)
    ensures
        r == item_has_tag(
            match found {
                Some(v) => Some(v@),
                None => None,
            },
            tag@,
        ),
{
    match found {
        Some(Value::Array(tags)) => {
            let ghost view = values_view(tags@);
            proof {
                assert(found->0@->Array_0 =~= view);
            }
            let ghost wanted = item_has_tag(Some(found->0@), tag@);
            let mut i: usize = 0;
            while i < tags.len()
                invariant
                    i <= tags.len(),
                    view == values_view(tags@),
                    found is Some,
                    wanted == item_has_tag(Some(found->0@), tag@),
                    wanted == view.contains(ValueView::String(tag@)),
                    forall|j: int| 0 <= j < i ==> view[j] != ValueView::String(tag@),
                decreases tags.len() - i,
            {
                match &tags[i] {
                    Value::String(s) => {
                        if crate::text::str_eq(s.as_str(), tag) {
                            proof {
                                assert(view[i as int] == ValueView::String(tag@));
                            }
                            return true;
                        }
                    },
                    _ => {},
                }
                i += 1;
            }
            false
        },
        _ => false,
    }
}

fn holds_value(found: Option<&Value>, value: &Value) -> (r: bool)
    ensures
        r == item_contains(
            match found {
                Some(v) => Some(v@),
                None => None,
            },
            value@,
        ),
{
    match found {
        Some(Value::Array(items)) => {
            let ghost view = values_view(items@);
            proof {
                assert(found->0@->Array_0 =~= view);
            }
            let ghost wanted = item_contains(Some(found->0@), value@);
            let mut i: usize = 0;
            while i < items.len()
                invariant
                    i <= items.len(),
                    view == values_view(items@),
                    found is Some,
                    wanted == item_contains(Some(found->0@), value@),
                    wanted == view.contains(value@),
                    forall|j: int| 0 <= j < i ==> view[j] != value@,
                decreases items.len() - i,
            {
                if items[i].same(value) {
                    proof {
                        assert(view[i as int] == value@);
                    }
                    return true;
                }
                i += 1;
            }
            false
        },
        Some(Value::String(s)) => match value {
            Value::String(part) => {
                let hay = chars_of(s.as_str());
                let needle = chars_of(part.as_str());
                search(&hay, &needle, 0).is_some()
            },
            _ => false,
        },
        _ => false,
    }
}

/// What a predicate says of one item of a collection.
pub fn evaluate_item_predicate(predicate: &Predicate, item: &Value) -> (r: Result<
    bool,
    EffectError,
>)
    ensures
        verdict_view(r) == item_verdict(predicate@, item@),
    decreases predicate,
{
    match predicate {
        Predicate::Equals { field, value } => compare_field(
            get_field_value(item, field.as_str()),
            value,
            Comparison::Equals,
        ),
        Predicate::NotEquals { field, value } => compare_field(
            get_field_value(item, field.as_str()),
            value,
            Comparison::NotEquals,
        ),
        Predicate::GreaterThan { field, value } => compare_field(
            get_field_value(item, field.as_str()),
            value,
            Comparison::GreaterThan,
        ),
        Predicate::LessThan { field, value } => compare_field(
            get_field_value(item, field.as_str()),
            value,
            Comparison::LessThan,
        ),
        Predicate::GreaterOrEqual { field, value } => compare_field(
            get_field_value(item, field.as_str()),
            value,
            Comparison::GreaterOrEqual,
        ),
        Predicate::LessOrEqual { field, value } => compare_field(
            get_field_value(item, field.as_str()),
            value,
            Comparison::LessOrEqual,
        ),
        Predicate::HasTag { tag } => Ok(holds_tag(get_field_value(item, "tags"), tag.as_str())),
        Predicate::IsType { card_type } => Ok(
            match get_field_value(item, "type") {
                Some(Value::String(s)) => crate::text::str_eq(s.as_str(), card_type.as_str()),
                _ => false,
            },
        ),
        Predicate::Contains { field, value } => Ok(
            holds_value(get_field_value(item, field.as_str()), value),
        ),
        Predicate::And { predicates } => evaluate_item_all(predicates, item),
        Predicate::Or { predicates } => evaluate_item_any(predicates, item),
        Predicate::Not { predicate } => match evaluate_item_predicate(predicate, item) {
            Ok(b) => Ok(!b),
            Err(e) => Err(e),
        },
        Predicate::Expression { expr } => Ok(false),
    }
}

fn evaluate_item_all(ps: &Vec<Predicate>, item: &Value) -> (r: Result<bool, EffectError>)
    ensures
        verdict_view(r) == item_all(predicates_view(*ps), item@, 0),
    decreases ps,
{
    let mut i: usize = 0;
    while i < ps.len()
        invariant
            i <= ps.len(),
            item_all(predicates_view(*ps), item@, 0) == item_all(
                predicates_view(*ps),
                item@,
                i as int,
            ),
        decreases ps.len() - i,
    {
        match evaluate_item_predicate(&ps[i], item) {
            Ok(true) => {},
            other => {
                return other;
            },
        }
        i += 1;
    }
    Ok(true)
}

fn evaluate_item_any(ps: &Vec<Predicate>, item: &Value) -> (r: Result<bool, EffectError>)
    ensures
        verdict_view(r) == item_any(predicates_view(*ps), item@, 0),
    decreases ps,
{
    let mut i: usize = 0;
    while i < ps.len()
        invariant
            i <= ps.len(),
            item_any(predicates_view(*ps), item@, 0) == item_any(
                predicates_view(*ps),
                item@,
                i as int,
            ),
        decreases ps.len() - i,
    {
        match evaluate_item_predicate(&ps[i], item) {
            Ok(false) => {},
            other => {
                return other;
            },
        }
        i += 1;
    }
    Ok(false)
}

/// The predicate "holds of the item, without error".
pub open spec fn satisfies(p: PredicateView) -> spec_fn(ValueView) -> bool {
    |v: ValueView| item_verdict(p, v) == Ok::<bool, ErrorView>(true)
}

/// The first error that the predicate gives on the items from position
/// `from` on, if it gives one.
pub open spec fn first_failure(items: Seq<ValueView>, p: PredicateView, from: int) -> Option<
    ErrorView,
>
    decreases items.len() - from,
{
    if from < 0 || from >= items.len() {
        None
    } else {
        match item_verdict(p, items[from]) {
            Err(e) => Some(e),
            Ok(_) => first_failure(items, p, from + 1),
        }
    }
}

/// The items that satisfy the predicate, in their order; or the first error
/// that the predicate gives on an item.
pub open spec fn filter_items(items: Seq<ValueView>, p: PredicateView) -> Result<
    Seq<ValueView>,
    ErrorView,
> {
    match first_failure(items, p, 0) {
        Some(e) => Err(e),
        None => Ok(items.filter(satisfies(p))),
    }
}

proof fn lemma_flagged_filter(items: Seq<Value>, keep: Seq<bool>, p: PredicateView)
    requires
        keep.len() == items.len(),
        forall|i: int| 0 <= i < items.len() ==> keep[i] == satisfies(p)(value_view(items[i])),
    ensures
        values_view(flagged(items, keep)) == values_view(items).filter(satisfies(p)),
    decreases items.len(),
{
    reveal(Seq::filter);
    if items.len() == 0 {
        assert(values_view(flagged(items, keep)) =~= values_view(items).filter(satisfies(p)));
    } else {
        lemma_flagged_filter(items.drop_last(), keep.drop_last(), p);
        assert(values_view(items).drop_last() =~= values_view(items.drop_last()));
        let sub = flagged(items.drop_last(), keep.drop_last());
        if keep.last() {
            assert(values_view(sub.push(items.last())) =~= values_view(sub).push(
                value_view(items.last()),
            ));
        }
    }
}

impl Collection {
    /// Keeps the items that satisfy `predicate`, in their order. If the
    /// predicate fails on an item, nothing is changed.
    pub fn retain_matching(&mut self, predicate: &Predicate) -> (r: EffectResult)
        ensures
            match filter_items(old(self)@, predicate@) {
                Ok(kept) => r is Ok && final(self)@ == kept,
                Err(e) => r matches Err(x) && x@ == e && *final(self) == *old(self),
            },
    {
        let mut keep: Vec<bool> = Vec::new();
        let mut i: usize = 0;
        while i < self.items.len()
            invariant
                i <= self.items.len(),
                keep.len() == i,
                *self == *old(self),
                first_failure(self@, predicate@, 0) == first_failure(self@, predicate@, i as int),
                forall|j: int|
                    0 <= j < i ==> keep[j] == satisfies(predicate@)(value_view(self.items[j])),
            decreases self.items.len() - i,
        {
            match evaluate_item_predicate(predicate, &self.items[i]) {
                Ok(flag) => {
                    keep.push(flag);
                },
                Err(e) => {
                    return Err(e);
                },
            }
            i += 1;
        }
        proof {
            lemma_flagged_filter(self.items@, keep@, predicate@);
        }
        let mut taken: Vec<Value> = Vec::new();
        std::mem::swap(&mut self.items, &mut taken);
        self.items = keep_flagged(taken, &keep);
        Ok(())
    }
}

/// The named collections of a game.
#[derive(Debug, Clone)]
pub struct CollectionManager {
    pub collections: Vec<(String, Collection)>,
}

impl View for CollectionManager {
    type V = Map<Seq<char>, Seq<ValueView>>;

    open spec fn view(&self) -> Map<Seq<char>, Seq<ValueView>> {
        shelf_view(self.collections@)
    }
}

/// The contents of the collections that a list of bindings names.
pub open spec fn shelf_view(es: Seq<(String, Collection)>) -> Map<Seq<char>, Seq<ValueView>> {
    Map::new(|k: Seq<char>| bound(es).contains_key(k), |k: Seq<char>| bound(es)[k]@)
}

/// After a change of the collection in the binding that decides a name, the
/// name is bound to the changed collection and the others as before.
proof fn lemma_changed_in_place(es: Seq<(String, Collection)>, i: int, left: Collection)
    requires
        0 <= i < es.len(),
        forall|j: int| i < j < es.len() ==> es[j].0@ != es[i].0@,
    ensures
        shelf_view(es.update(i, (es[i].0, left))) == shelf_view(es).insert(es[i].0@, left@),
{
    let after = es.update(i, (es[i].0, left));
    crate::assoc::lemma_bindings_replace(es, after, i, es.len());
    assert(shelf_view(after) =~= shelf_view(es).insert(es[i].0@, left@));
}

impl CollectionManager {
    /// A manager without collections.
    pub fn new() -> (r: CollectionManager)
        ensures
            r@ == Map::<Seq<char>, Seq<ValueView>>::empty(),
    {
        let r = CollectionManager { collections: Vec::new() };
        proof {
            assert(r@ =~= Map::<Seq<char>, Seq<ValueView>>::empty());
        }
        r
    }

    /// The collection of that name, if there is one.
    pub fn get(&self, path: &str) -> (r: Option<&Collection>)
        ensures
            match r {
                Some(c) => self@.contains_key(path@) && c@ == self@[path@],
                None => !self@.contains_key(path@),
            },
    {
        match find_binding(&self.collections, path) {
            Some(i) => Some(&self.collections[i].1),
            None => None,
        }
    }

    /// The collection of that name, to be changed in place, if there is one.
    /// What the caller leaves in it is what the name is bound to afterwards.
    pub fn get_mut(&mut self, path: &str) -> (r: Option<&mut Collection>)
        ensures
            match r {
                Some(c) => {
                    &&& old(self)@.contains_key(path@)
                    &&& c@ == old(self)@[path@]
                    &&& final(self)@ == old(self)@.insert(path@, final(c)@)
                },
                None => !old(self)@.contains_key(path@) && *final(self) == *old(self),
            },
    {
        match find_binding(&self.collections, path) {
            Some(i) => {
                proof {
                    let es = self.collections@;
                    assert forall|left: Collection| #[trigger]
                        shelf_view(es.update(i as int, (es[i as int].0, left))) == shelf_view(
                            es,
                        ).insert(path@, left@) by {
                        lemma_changed_in_place(es, i as int, left);
                    }
                }
                Some(&mut self.collections[i].1)
            },
            None => None,
        }
    }

    /// The collection of that name, to be changed in place; an empty one is
    /// made first if there is none. What the caller leaves in it is what the
    /// name is bound to afterwards.
    pub fn get_or_create(&mut self, path: &str) -> (r: &mut Collection)
        ensures
            r@ == if old(self)@.contains_key(path@) {
                old(self)@[path@]
            } else {
                Seq::<ValueView>::empty()
            },
            final(self)@ == old(self)@.insert(path@, final(r)@),
    {
        let i: usize = match find_binding(&self.collections, path) {
            Some(i) => i,
            None => {
                let ghost before = self.collections@;
                self.collections.push((path.to_string(), Collection::new()));
                proof {
                    crate::assoc::lemma_bindings_prefix(before, self.collections@, before.len());
                }
                self.collections.len() - 1
            },
        };
        proof {
            let es = self.collections@;
            assert forall|left: Collection| #[trigger]
                shelf_view(es.update(i as int, (es[i as int].0, left))) == old(self)@.insert(
                    path@,
                    left@,
                ) by {
                lemma_changed_in_place(es, i as int, left);
                assert(shelf_view(es).insert(path@, left@) =~= old(self)@.insert(path@, left@));
            }
        }
        &mut self.collections[i].1
    }

    /// Binds the name to the collection, in place of what it was bound to.
    pub fn set(&mut self, path: &str, collection: Collection)
        ensures
            final(self)@ == old(self)@.insert(path@, collection@),
    {
        put_binding(&mut self.collections, path.to_string(), collection);
        proof {
            assert(self@ =~= old(self)@.insert(path@, collection@));
        }
    }

    /// Unbinds the name, and hands back the collection it was bound to.
    pub fn remove(&mut self, path: &str) -> (r: Option<Collection>)
        ensures
            final(self)@ == old(self)@.remove(path@),
            match r {
                Some(c) => old(self)@.contains_key(path@) && c@ == old(self)@[path@],
                None => !old(self)@.contains_key(path@),
            },
    {
        let r = drop_binding(&mut self.collections, path);
        proof {
            assert(self@ =~= old(self)@.remove(path@));
        }
        r
    }

    /// Whether the name is bound to a collection.
    pub fn contains(&self, path: &str) -> (r: bool)
        ensures
            r == self@.contains_key(path@),
    {
        find_binding(&self.collections, path).is_some()
    }

    /// Unbinds every name.
    pub fn clear(&mut self)
        ensures
            final(self)@ == Map::<Seq<char>, Seq<ValueView>>::empty(),
    {
        self.collections.clear();
        proof {
            assert(self@ =~= Map::<Seq<char>, Seq<ValueView>>::empty());
        }
    }

    /// The number of items in the collection of that name; 0 if there is
    /// none.
    pub fn len(&self, path: &str) -> (r: usize)
        ensures
            r == if self@.contains_key(path@) {
                self@[path@].len()
            } else {
                0
            },
    {
        match self.get(path) {
            Some(c) => c.len(),
            None => 0,
        }
    }

    /// Whether no name is bound.
    pub fn is_empty(&self) -> (r: bool)
        ensures
            r == (self@ == Map::<Seq<char>, Seq<ValueView>>::empty()),
    {
        proof {
            if self.collections.len() > 0 {
                let k = self.collections[0].0@;
                crate::assoc::lemma_bindings_dom(
                    self.collections@,
                    self.collections.len() as nat,
                    k,
                );
                assert(self@.contains_key(k));
            } else {
                assert(self@ =~= Map::<Seq<char>, Seq<ValueView>>::empty());
            }
        }
        self.collections.len() == 0
    }
}

impl Default for CollectionManager {
    fn default() -> (r: CollectionManager)
        ensures
            r@ == Map::<Seq<char>, Seq<ValueView>>::empty(),
    {
        CollectionManager::new()
    }
}

} // verus!
