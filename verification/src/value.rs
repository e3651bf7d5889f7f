//! The values that effects read and write.

use crate::decimal::{int_micros, whole_part, Decimal};
use crate::assoc::{bindings, bound, find_binding, lemma_bindings_dom};
use crate::text::str_eq;
use vstd::prelude::*;
use vstd::std_specs::cmp::PartialEqSpecImpl;

verus! {

/// Any datum the interpreter handles.
///
/// An object is a list of bindings in which a later binding of a key
/// replaces an earlier one; two objects are equal when they bind the same
/// keys to equal values, whatever the order of their lists.
#[derive(Debug)]
pub enum Value {
    Int(i32),
    Float(Decimal),
    Bool(bool),
    String(String),
    Array(Vec<Value>),
    Object(Vec<(String, Value)>),
    Null,
}

/// The mathematical content of a [`Value`]. A decimal is held in millionths.
pub enum ValueView {
    Int(int),
    Float(int),
    Bool(bool),
    String(Seq<char>),
    Array(Seq<ValueView>),
    Object(Map<Seq<char>, ValueView>),
    Null,
}

/// The content of `v`.
pub open spec fn value_view(v: Value) -> ValueView
    decreases v,
{
    match v {
        Value::Int(i) => ValueView::Int(i as int),
        Value::Float(d) => ValueView::Float(d.micros as int),
        Value::Bool(b) => ValueView::Bool(b),
        Value::String(s) => ValueView::String(s@),
        Value::Array(items) => ValueView::Array(
            Seq::new(
                items.len() as nat,
                |i: int|
                    if 0 <= i < items.len() {
                        value_view(items[i])
                    } else {
                        ValueView::Null
                    },
            ),
        ),
        Value::Object(entries) => ValueView::Object(entries_view(entries@, entries.len() as nat)),
        Value::Null => ValueView::Null,
    }
}

/// The map bound by the first `n` bindings of `es`, later ones winning.
pub open spec fn entries_view(es: Seq<(String, Value)>, n: nat) -> Map<Seq<char>, ValueView>
    decreases es, n,
{
    if n == 0 || n > es.len() {
        Map::empty()
    } else {
        entries_view(es, (n - 1) as nat).insert(es[n - 1].0@, value_view(es[n - 1].1))
    }
}

/// The contents of a list of values.
pub open spec fn values_view(vs: Seq<Value>) -> Seq<ValueView> {
    Seq::new(vs.len(), |i: int| value_view(vs[i]))
}

impl View for Value {
    type V = ValueView;

    open spec fn view(&self) -> ValueView {
        value_view(*self)
    }
}

/// A number as a count of millionths; nothing for a value that is no number.
pub open spec fn numeric_micros(v: ValueView) -> Option<int> {
    match v {
        ValueView::Int(i) => Some(int_micros(i)),
        ValueView::Float(m) => Some(m),
        _ => None,
    }
}

/// A key is bound by the first `n` bindings exactly when one of them names it.
pub proof fn lemma_entries_dom(es: Seq<(String, Value)>, n: nat, key: Seq<char>)
    requires
        n <= es.len(),
    ensures
        entries_view(es, n).contains_key(key) <==> exists|i: int| 0 <= i < n && es[i].0@ == key,
{
    lemma_entries_bound(es, n);
    lemma_bindings_dom(es, n, key);
    assert(entries_view(es, n).contains_key(key) == bindings(es, n).contains_key(key));
}

/// Two lists with the same keys and equal values, position by position,
/// bind the same map.
pub proof fn lemma_entries_congruent(a: Seq<(String, Value)>, b: Seq<(String, Value)>, n: nat)
    requires
        n <= a.len(),
        n <= b.len(),
        forall|i: int| 0 <= i < n ==> a[i].0@ == b[i].0@ && value_view(a[i].1) == value_view(b[i].1),
    ensures
        entries_view(a, n) == entries_view(b, n),
    decreases n,
{
    if n > 0 {
        lemma_entries_congruent(a, b, (n - 1) as nat);
    }
}

/// The content of a table of values is the table of their contents.
pub proof fn lemma_entries_bound(es: Seq<(String, Value)>, n: nat)
    requires
        n <= es.len(),
    ensures
        entries_view(es, n).dom() == bindings(es, n).dom(),
        forall|k: Seq<char>| #[trigger]
            bindings(es, n).contains_key(k) ==> entries_view(es, n)[k] == value_view(
                bindings(es, n)[k],
            ),
    decreases n,
{
    if n > 0 {
        lemma_entries_bound(es, (n - 1) as nat);
        assert(entries_view(es, n).dom() =~= bindings(es, n).dom());
    }
}

/// The content of a whole table of values.
pub open spec fn table_view(es: Seq<(String, Value)>) -> Map<Seq<char>, ValueView> {
    entries_view(es, es.len())
}

/// Binding a key in a table of values binds it to the value's content.
pub proof fn lemma_table_insert(
    before: Seq<(String, Value)>,
    after: Seq<(String, Value)>,
    key: Seq<char>,
    value: Value,
)
    requires
        bound(after) == bound(before).insert(key, value),
    ensures
        table_view(after) == table_view(before).insert(key, value_view(value)),
{
    lemma_entries_bound(before, before.len());
    lemma_entries_bound(after, after.len());
    let l = table_view(after);
    let r = table_view(before).insert(key, value_view(value));
    assert forall|k: Seq<char>|
        #![trigger l.contains_key(k)]
        #![trigger r.contains_key(k)]
        l.contains_key(k) == r.contains_key(k) && (l.contains_key(k) ==> l[k] == r[k]) by {
        assert(l.contains_key(k) == bound(after).contains_key(k));
        assert(table_view(before).contains_key(k) == bound(before).contains_key(k));
    }
    assert(l =~= r);
}

/// Index of the binding that decides `key` in `entries`: the last one that
/// names it.
pub fn find_entry(entries: &Vec<(String, Value)>, key: &str) -> (r: Option<usize>)
    ensures
        match r {
            Some(i) => {
                &&& i < entries.len()
                &&& entries[i as int].0@ == key@
                &&& table_view(entries@).contains_key(key@)
                &&& table_view(entries@)[key@] == value_view(entries[i as int].1)
            },
            None => !table_view(entries@).contains_key(key@),
        },
{
    proof {
        lemma_entries_bound(entries@, entries.len() as nat);
    }
    find_binding(entries, key)
}

impl Value {
    /// The number as an integer: a decimal loses its fraction.
    pub fn as_int(&self) -> (r: Option<i32>)
        ensures
            r == match self@ {
                ValueView::Int(i) => Some(i as i32),
                ValueView::Float(m) => Some(whole_part(m) as i32),
                _ => None,
            },
    {
        match self {
            Value::Int(v) => Some(*v),
            Value::Float(d) => Some(d.to_int()),
            _ => None,
        }
    }

    /// The number as a decimal.
    pub fn as_float(&self) -> (r: Option<Decimal>)
        ensures
            match numeric_micros(self@) {
                Some(m) => r matches Some(d) && d.micros == m,
                None => r is None,
            },
    {
        match self {
            Value::Float(d) => Some(*d),
            Value::Int(v) => Some(Decimal::from_int(*v)),
            _ => None,
        }
    }

    /// The truth value, if this is one.
    pub fn as_bool(&self) -> (r: Option<bool>)
        ensures
            r == match self@ {
                ValueView::Bool(b) => Some(b),
                _ => None,
            },
    {
        match self {
            Value::Bool(b) => Some(*b),
            _ => None,
        }
    }

    /// The text, if this is text.
    pub fn as_string(&self) -> (r: Option<&str>)
        ensures
            match self@ {
                ValueView::String(s) => r matches Some(t) && t@ == s,
                _ => r is None,
            },
    {
        match self {
            Value::String(s) => Some(s.as_str()),
            _ => None,
        }
    }

    /// The number in millionths, if this is a number.
    pub fn as_micros(&self) -> (r: Option<i64>)
        ensures
            match numeric_micros(self@) {
                Some(m) => r == Some(m as i64) && i64::MIN <= m <= i64::MAX,
                None => r is None,
            },
    {
        match self {
            Value::Int(v) => Some(Decimal::from_int(*v).micros),
            Value::Float(d) => Some(d.micros),
            _ => None,
        }
    }

    /// Whether two values have the same content.
    pub fn same(&self, other: &Value) -> (r: bool)
        ensures
            r == (self@ == other@),
        decreases self,
    {
        match (self, other) {
            (Value::Int(a), Value::Int(b)) => *a == *b,
            (Value::Float(a), Value::Float(b)) => a.micros == b.micros,
            (Value::Bool(a), Value::Bool(b)) => *a == *b,
            (Value::String(a), Value::String(b)) => str_eq(a.as_str(), b.as_str()),
            (Value::Array(a), Value::Array(b)) => {
                if a.len() != b.len() {
                    proof {
                        assert(self@->Array_0.len() != other@->Array_0.len());
                    }
                    return false;
                }
                let mut i: usize = 0;
                while i < a.len()
                    invariant
                        i <= a.len(),
                        a.len() == b.len(),
                        *self == Value::Array(*a),
                        *other == Value::Array(*b),
                        forall|j: int| 0 <= j < i ==> value_view(a[j]) == value_view(b[j]),
                    decreases a.len() - i,
                {
                    proof {
                        assert(decreases_to!(a => a[i as int]));
                    }
                    if !a[i].same(&b[i]) {
                        proof {
                            assert(self@->Array_0[i as int] == value_view(a[i as int]));
                            assert(other@->Array_0[i as int] == value_view(b[i as int]));
                        }
                        return false;
                    }
                    i += 1;
                }
                proof {
                    assert(self@->Array_0 =~= other@->Array_0);
                }
                true
            },
            (Value::Object(a), Value::Object(b)) => {
                let ghost ma = entries_view(a@, a.len() as nat);
                let ghost mb = entries_view(b@, b.len() as nat);
                let mut i: usize = 0;
                while i < a.len()
                    invariant
                        i <= a.len(),
                        *self == Value::Object(*a),
                        self@ == ValueView::Object(ma),
                        other@ == ValueView::Object(mb),
                        ma == entries_view(a@, a.len() as nat),
                        mb == entries_view(b@, b.len() as nat),
                        forall|j: int|
                            0 <= j < i ==> ma.contains_key(#[trigger] a[j].0@) && mb.contains_key(
                                a[j].0@,
                            ) && mb[a[j].0@] == ma[a[j].0@],
                    decreases a.len() - i,
                {
                    let key = a[i].0.as_str();
                    proof {
                        lemma_entries_dom(a@, a.len() as nat, key@);
                    }
                    let ia = find_entry(a, key);
                    let ib = find_entry(b, key);
                    match (ia, ib) {
                        (Some(x), Some(y)) => {
                            proof {
                                assert(decreases_to!(a => a[x as int]));
                            }
                            if !a[x].1.same(&b[y].1) {
                                return false;
                            }
                        },
                        _ => {
                            return false;
                        },
                    }
                    i += 1;
                }
                let mut j: usize = 0;
                while j < b.len()
                    invariant
                        j <= b.len(),
                        self@ == ValueView::Object(ma),
                        other@ == ValueView::Object(mb),
                        ma == entries_view(a@, a.len() as nat),
                        mb == entries_view(b@, b.len() as nat),
                        forall|k: int|
                            0 <= k < a.len() ==> ma.contains_key(#[trigger] a[k].0@)
                                && mb.contains_key(a[k].0@) && mb[a[k].0@] == ma[a[k].0@],
                        forall|k: int| 0 <= k < j ==> ma.contains_key(#[trigger] b[k].0@),
                    decreases b.len() - j,
                {
                    if find_entry(a, b[j].0.as_str()).is_none() {
                        proof {
                            lemma_entries_dom(b@, b.len() as nat, b[j as int].0@);
                        }
                        return false;
                    }
                    j += 1;
                }
                proof {
                    assert forall|k: Seq<char>| #[trigger]
                        ma.contains_key(k) implies mb.contains_key(k) && ma[k] == mb[k] by {
                        lemma_entries_dom(a@, a.len() as nat, k);
                        let x = choose|x: int| 0 <= x < a.len() && a[x].0@ == k;
                        assert(mb.contains_key(a[x].0@));
                    }
                    assert forall|k: Seq<char>| #[trigger]
                        mb.contains_key(k) implies ma.contains_key(k) by {
                        lemma_entries_dom(b@, b.len() as nat, k);
                        let x = choose|x: int| 0 <= x < b.len() && b[x].0@ == k;
                        assert(ma.contains_key(b[x].0@));
                    }
                    assert(ma =~= mb);
                }
                true
            },
            (Value::Null, Value::Null) => true,
            _ => false,
        }
    }

    /// A copy with the same content.
    pub fn duplicate(&self) -> (r: Value)
        ensures
            r@ == self@,
        decreases self,
    {
        match self {
            Value::Int(v) => Value::Int(*v),
            Value::Float(d) => Value::Float(*d),
            Value::Bool(b) => Value::Bool(*b),
            Value::String(s) => Value::String(s.clone()),
            Value::Array(items) => {
                let r = Value::Array(duplicate_values(items));
                proof {
                    assert(r@->Array_0 =~= self@->Array_0) by {
                        assert forall|i: int| 0 <= i < items.len() implies r@->Array_0[i]
                            == self@->Array_0[i] by {
                            assert(values_view(r->Array_0@)[i] == values_view(items@)[i]);
                        }
                    }
                }
                r
            },
            Value::Object(entries) => Value::Object(duplicate_entries(entries)),
            Value::Null => Value::Null,
        }
    }
}

/// A copy of a list of values, element by element.
pub fn duplicate_values(items: &Vec<Value>) -> (r: Vec<Value>)
    ensures
        r.len() == items.len(),
        values_view(r@) == values_view(items@),
    decreases items,
{
    let mut out: Vec<Value> = Vec::new();
    let mut i: usize = 0;
    while i < items.len()
        invariant
            i <= items.len(),
            out.len() == i,
            forall|j: int| 0 <= j < i ==> value_view(out[j]) == value_view(items[j]),
        decreases items.len() - i,
    {
        let item = items[i].duplicate();
        out.push(item);
        i += 1;
    }
    proof {
        assert(values_view(out@) =~= values_view(items@));
    }
    out
}

/// A copy of a list of bindings, binding by binding.
pub fn duplicate_entries(entries: &Vec<(String, Value)>) -> (r: Vec<(String, Value)>)
    ensures
        r.len() == entries.len(),
        entries_view(r@, r.len() as nat) == entries_view(entries@, entries.len() as nat),
        forall|j: int|
            0 <= j < r.len() ==> r[j].0@ == entries[j].0@ && value_view(r[j].1) == value_view(
                entries[j].1,
            ),
    decreases entries,
{
    let mut out: Vec<(String, Value)> = Vec::new();
    let mut i: usize = 0;
    while i < entries.len()
        invariant
            i <= entries.len(),
            out.len() == i,
            forall|j: int|
                0 <= j < i ==> out[j].0@ == entries[j].0@ && value_view(out[j].1) == value_view(
                    entries[j].1,
                ),
        decreases entries.len() - i,
    {
        let item = entries[i].1.duplicate();
        out.push((entries[i].0.clone(), item));
        i += 1;
    }
    proof {
        lemma_entries_congruent(out@, entries@, entries.len() as nat);
    }
    out
}

impl Clone for Value {
    fn clone(&self) -> (r: Value)
        ensures
            r@ == self@,
    {
        self.duplicate()
    }
}

impl PartialEq for Value {
    fn eq(&self, other: &Value) -> (r: bool) {
        self.same(other)
    }
}

impl PartialEqSpecImpl for Value {
    open spec fn obeys_eq_spec() -> bool {
        true
    }

    open spec fn eq_spec(&self, other: &Value) -> bool {
        self@ == other@
    }
}

} // verus!
