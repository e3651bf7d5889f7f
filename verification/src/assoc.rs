//! String-keyed tables kept as lists of bindings.
//!
//! A later binding of a key replaces an earlier one, so every list stands for
//! a map, whatever it holds.

use crate::text::str_eq;
use vstd::prelude::*;

verus! {

/// The map bound by the first `n` bindings of `es`, later ones winning.
pub open spec fn bindings<V>(es: Seq<(String, V)>, n: nat) -> Map<Seq<char>, V>
    decreases n,
{
    if n == 0 || n > es.len() {
        Map::empty()
    } else {
        bindings(es, (n - 1) as nat).insert(es[n - 1].0@, es[n - 1].1)
    }
}

/// The map that a list of bindings stands for.
pub open spec fn bound<V>(es: Seq<(String, V)>) -> Map<Seq<char>, V> {
    bindings(es, es.len())
}

/// A key is bound by the first `n` bindings exactly when one of them names it.
pub proof fn lemma_bindings_dom<V>(es: Seq<(String, V)>, n: nat, key: Seq<char>)
    requires
        n <= es.len(),
    ensures
        bindings(es, n).contains_key(key) <==> exists|i: int| 0 <= i < n && es[i].0@ == key,
    decreases n,
{
    if n > 0 {
        lemma_bindings_dom(es, (n - 1) as nat, key);
        if es[n - 1].0@ == key {
            assert(0 <= n - 1 < n && es[n - 1].0@ == key);
        } else if bindings(es, n).contains_key(key) {
            let i = choose|i: int| 0 <= i < n - 1 && es[i].0@ == key;
            assert(0 <= i < n && es[i].0@ == key);
        }
    }
}

/// Lists that agree on their first `n` bindings bind the same map there.
pub proof fn lemma_bindings_prefix<V>(a: Seq<(String, V)>, b: Seq<(String, V)>, n: nat)
    requires
        n <= a.len(),
        n <= b.len(),
        forall|i: int| 0 <= i < n ==> a[i].0@ == b[i].0@ && a[i].1 == b[i].1,
    ensures
        bindings(a, n) == bindings(b, n),
    decreases n,
{
    if n > 0 {
        lemma_bindings_prefix(a, b, (n - 1) as nat);
    }
}

/// Replacing the binding that decides a key by one of the same key binds the
/// key to the new value and leaves the others.
pub proof fn lemma_bindings_replace<V>(
    a: Seq<(String, V)>,
    b: Seq<(String, V)>,
    i: int,
    n: nat,
)
    requires
        a.len() == b.len(),
        0 <= i < n <= a.len(),
        a[i].0@ == b[i].0@,
        forall|j: int| 0 <= j < a.len() && j != i ==> a[j].0@ == b[j].0@ && a[j].1 == b[j].1,
        forall|j: int| i < j < a.len() ==> a[j].0@ != a[i].0@,
    ensures
        bindings(b, n) == bindings(a, n).insert(b[i].0@, b[i].1),
    decreases n,
{
    if n - 1 == i {
        lemma_bindings_prefix(a, b, i as nat);
        assert(bindings(b, n) =~= bindings(a, n).insert(b[i].0@, b[i].1));
    } else {
        lemma_bindings_replace(a, b, i, (n - 1) as nat);
        assert(bindings(b, n) =~= bindings(a, n).insert(b[i].0@, b[i].1));
    }
}

/// Taking out one binding of a key changes nothing for the other keys.
pub proof fn lemma_bindings_remove_at<V>(a: Seq<(String, V)>, i: int, n: nat)
    requires
        0 <= i < a.len(),
        n <= a.len(),
    ensures
        i < n ==> bindings(a.remove(i), (n - 1) as nat).remove(a[i].0@) == bindings(a, n).remove(
            a[i].0@,
        ),
        i >= n ==> bindings(a.remove(i), n) == bindings(a, n),
    decreases n,
{
    let b = a.remove(i);
    if i >= n {
        lemma_bindings_prefix(a, b, n);
    } else if n - 1 == i {
        lemma_bindings_prefix(a, b, i as nat);
        assert(bindings(b, (n - 1) as nat).remove(a[i].0@) =~= bindings(a, n).remove(a[i].0@));
    } else {
        lemma_bindings_remove_at(a, i, (n - 1) as nat);
        assert(b[n - 2] == a[n - 1]);
        let k = a[i].0@;
        let m1 = bindings(b, (n - 2) as nat);
        let m2 = bindings(a, (n - 1) as nat);
        assert(m1.remove(k) == m2.remove(k));
        let l = bindings(b, (n - 1) as nat).remove(k);
        let r = bindings(a, n).remove(k);
        assert(bindings(b, (n - 1) as nat) == m1.insert(a[n - 1].0@, a[n - 1].1));
        assert(bindings(a, n) == m2.insert(a[n - 1].0@, a[n - 1].1));
        assert forall|q: Seq<char>|
            #![trigger l.contains_key(q)]
            #![trigger r.contains_key(q)]
            l.contains_key(q) == r.contains_key(q) && (l.contains_key(q) ==> l[q] == r[q]) by {
            if q != k {
                assert(m1.remove(k).contains_key(q) == m1.contains_key(q));
                assert(m2.remove(k).contains_key(q) == m2.contains_key(q));
                if m1.contains_key(q) {
                    assert(m1.remove(k)[q] == m1[q]);
                    assert(m2.remove(k)[q] == m2[q]);
                }
            }
        }
        assert(l =~= r);
    }
}

/// Index of the binding that decides `key`: the last one that names it.
pub fn find_binding<V>(entries: &Vec<(String, V)>, key: &str) -> (r: Option<usize>)
    ensures
        match r {
            Some(i) => {
                &&& i < entries.len()
                &&& entries[i as int].0@ == key@
                &&& bound(entries@).contains_key(key@)
                &&& bound(entries@)[key@] == entries[i as int].1
                &&& forall|j: int| i < j < entries.len() ==> entries[j].0@ != key@
            },
            None => !bound(entries@).contains_key(key@),
        },
{
    let mut best: Option<usize> = None;
    let mut i: usize = 0;
    while i < entries.len()
        invariant
            i <= entries.len(),
            match best {
                Some(ix) => {
                    &&& ix < i
                    &&& entries[ix as int].0@ == key@
                    &&& bindings(entries@, i as nat).contains_key(key@)
                    &&& bindings(entries@, i as nat)[key@] == entries[ix as int].1
                    &&& forall|j: int| ix < j < i ==> entries[j].0@ != key@
                },
                None => !bindings(entries@, i as nat).contains_key(key@),
            },
        decreases entries.len() - i,
    {
        if str_eq(entries[i].0.as_str(), key) {
            best = Some(i);
        }
        i += 1;
    }
    best
}

/// Binds `key` to `value`, in place of what it was bound to before.
pub fn put_binding<V>(entries: &mut Vec<(String, V)>, key: String, value: V)
    ensures
        bound(final(entries)@) == bound(old(entries)@).insert(key@, value),
{
    match find_binding(entries, key.as_str()) {
        Some(i) => {
            let ghost before = entries@;
            entries[i] = (key, value);
            proof {
                lemma_bindings_replace(before, entries@, i as int, entries.len() as nat);
            }
        },
        None => {
            let ghost before = entries@;
            entries.push((key, value));
            proof {
                lemma_bindings_prefix(before, entries@, before.len());
            }
        },
    }
}

/// Unbinds `key`, and hands back what it was bound to.
pub fn drop_binding<V>(entries: &mut Vec<(String, V)>, key: &str) -> (r: Option<V>)
    ensures
        bound(final(entries)@) == bound(old(entries)@).remove(key@),
        r == if bound(old(entries)@).contains_key(key@) {
            Some(bound(old(entries)@)[key@])
        } else {
            None::<V>
        },
{
    let mut taken: Option<V> = None;
    loop
        invariant
            bound(entries@).remove(key@) == bound(old(entries)@).remove(key@),
            match taken {
                Some(v) => bound(old(entries)@).contains_key(key@) && v == bound(
                    old(entries)@,
                )[key@],
                None => entries@ == old(entries)@,
            },
        ensures
            !bound(entries@).contains_key(key@),
            taken is None ==> !bound(old(entries)@).contains_key(key@),
        decreases entries.len(),
    {
        match find_binding(entries, key) {
            Some(i) => {
                proof {
                    lemma_bindings_remove_at(entries@, i as int, entries.len() as nat);
                }
                let gone = entries.remove(i);
                if taken.is_none() {
                    taken = Some(gone.1);
                }
            },
            None => {
                break ;
            },
        }
    }
    proof {
        assert(bound(entries@).remove(key@) =~= bound(entries@));
    }
    taken
}

} // verus!
