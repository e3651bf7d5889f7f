//! Character-level helpers for strings.

use vstd::prelude::*;
use vstd::string::*;
use vstd::utf8::*;

verus! {

/// The characters of `s`, in order.
pub fn chars_of(s: &str) -> (v: Vec<char>)
    ensures
        v@ == s@,
{
    let mut v: Vec<char> = Vec::new();
    for c in it: s.chars()
        invariant
            it.seq() == s@,
            v@ == s@.take(it.index() as int),
    {
        proof {
            assert(s@.take(it.index() + 1) =~= s@.take(it.index() as int).push(c));
        }
        v.push(c);
    }
    proof {
        assert(s@.take(s@.len() as int) =~= s@);
    }
    v
}

/// Whether two strings hold the same characters.
pub fn str_eq(a: &str, b: &str) -> (r: bool)
    ensures
        r == (a@ == b@),
{
    let x = a.as_bytes();
    let y = b.as_bytes();
    proof {
        encode_utf8_decode_utf8(a@);
        encode_utf8_decode_utf8(b@);
    }
    if x.len() != y.len() {
        return false;
    }
    let mut i: usize = 0;
    while i < x.len()
        invariant
            i <= x.len(),
            x.len() == y.len(),
            x@ == a.spec_bytes(),
            y@ == b.spec_bytes(),
            forall|j: int| 0 <= j < i ==> x@[j] == y@[j],
        decreases x.len() - i,
    {
        if x[i] != y[i] {
            proof {
                assert(x@[i as int] != y@[i as int]);
            }
            return false;
        }
        i += 1;
    }
    proof {
        assert(x@ =~= y@);
    }
    true
}

/// Whether `needle` occurs in `hay` starting at position `i`.
pub open spec fn matches_at(hay: Seq<char>, needle: Seq<char>, i: int) -> bool {
    &&& 0 <= i
    &&& i + needle.len() <= hay.len()
    &&& hay.subrange(i, i + needle.len()) == needle
}

/// Position of the first `c` in `s` at or after `from`, or the length of `s`
/// when there is none.
pub open spec fn index_of_from(s: Seq<char>, c: char, from: int) -> int
    decreases s.len() - from,
{
    if from < 0 || from >= s.len() {
        s.len() as int
    } else if s[from] == c {
        from
    } else {
        index_of_from(s, c, from + 1)
    }
}

/// Position of the first occurrence of `needle` in `hay` at or after `from`.
pub open spec fn search_from(hay: Seq<char>, needle: Seq<char>, from: int) -> Option<int>
    decreases hay.len() + 1 - from,
{
    if from < 0 || from + needle.len() > hay.len() {
        None
    } else if matches_at(hay, needle, from) {
        Some(from)
    } else {
        search_from(hay, needle, from + 1)
    }
}

/// Whether `needle` occurs anywhere in `hay`.
pub open spec fn contains_seq(hay: Seq<char>, needle: Seq<char>) -> bool {
    search_from(hay, needle, 0) is Some
}

/// Where `c` does not occur at or after `from`, its position is the length.
pub proof fn lemma_index_of_from_end(s: Seq<char>, c: char, from: int)
    requires
        0 <= from <= s.len(),
        forall|j: int| from <= j < s.len() ==> s[j] != c,
    ensures
        index_of_from(s, c, from) == s.len(),
    decreases s.len() - from,
{
    if from < s.len() {
        lemma_index_of_from_end(s, c, from + 1);
    }
}

/// A found position is the least position at which `needle` occurs.
pub proof fn lemma_search_from(hay: Seq<char>, needle: Seq<char>, from: int)
    requires
        0 <= from,
    ensures
        match search_from(hay, needle, from) {
            Some(i) => from <= i && matches_at(hay, needle, i) && forall|j: int|
                from <= j < i ==> !matches_at(hay, needle, j),
            None => forall|j: int| from <= j ==> !matches_at(hay, needle, j),
        },
    decreases hay.len() + 1 - from,
{
    if from + needle.len() <= hay.len() && !matches_at(hay, needle, from) {
        lemma_search_from(hay, needle, from + 1);
    }
}

/// Position of the first `c` in `chars` at or after `from`.
pub fn find_char(chars: &Vec<char>, c: char, from: usize) -> (r: usize)
    requires
        from <= chars.len(),
    ensures
        r == index_of_from(chars@, c, from as int),
        from <= r <= chars.len(),
{
    let mut i: usize = from;
    while i < chars.len()
        invariant
            from <= i <= chars.len(),
            index_of_from(chars@, c, from as int) == index_of_from(chars@, c, i as int),
        decreases chars.len() - i,
    {
        if chars[i] == c {
            return i;
        }
        i += 1;
    }
    i
}

/// Whether `needle` occurs in `hay` at position `at`.
pub fn occurs_at(hay: &Vec<char>, needle: &Vec<char>, at: usize) -> (r: bool)
    ensures
        r == matches_at(hay@, needle@, at as int),
{
    if needle.len() > hay.len() || at > hay.len() - needle.len() {
        return false;
    }
    let mut k: usize = 0;
    while k < needle.len()
        invariant
            k <= needle.len(),
            at + needle.len() <= hay.len(),
            forall|j: int| 0 <= j < k ==> hay@[at + j] == needle@[j],
        decreases needle.len() - k,
    {
        if hay[at + k] != needle[k] {
            proof {
                assert(hay@.subrange(at as int, at + needle.len())[k as int] == hay@[at + k]);
            }
            return false;
        }
        k += 1;
    }
    proof {
        assert(hay@.subrange(at as int, at + needle.len()) =~= needle@);
    }
    true
}

/// Position of the first occurrence of `needle` in `hay` at or after `from`.
pub fn search(hay: &Vec<char>, needle: &Vec<char>, from: usize) -> (r: Option<usize>)
    ensures
        match r {
            Some(i) => search_from(hay@, needle@, from as int) == Some(i as int),
            None => search_from(hay@, needle@, from as int) is None,
        },
{
    if needle.len() > hay.len() {
        return None;
    }
    let last: usize = hay.len() - needle.len();
    let mut i: usize = from;
    while i <= last
        invariant
            from <= i,
            last == hay.len() - needle.len(),
            search_from(hay@, needle@, from as int) == search_from(hay@, needle@, i as int),
        decreases last + 1 - i,
    {
        if occurs_at(hay, needle, i) {
            return Some(i);
        }
        if i == last {
            proof {
                assert(search_from(hay@, needle@, i + 1) is None);
            }
            return None;
        }
        i += 1;
    }
    None
}

/// What `char::is_whitespace` returns for a character: whether it is white
/// space.
pub uninterp spec fn is_white_space(c: char) -> bool;

/// What `str::to_lowercase` returns for a text: the text in lower case.
pub uninterp spec fn lowercased(s: Seq<char>) -> Seq<char>;

/// Whether a character is white space, by `char::is_whitespace`. The result
/// is only named: what counts as white space is the standard library's
/// matter.
#[verifier::external_body]
pub(crate) fn char_is_white_space(c: char) -> (r: bool)
    ensures
        r == is_white_space(c),
{
    c.is_whitespace()
}

/// The first position at or after `from` that holds no white space, or the
/// length of the text.
pub open spec fn leading_space_end(s: Seq<char>, from: int) -> int
    decreases s.len() - from,
{
    if 0 <= from < s.len() && is_white_space(s[from]) {
        leading_space_end(s, from + 1)
    } else {
        from
    }
}

/// The position behind the last character before `to` that is no white
/// space, but not less than `floor`.
pub open spec fn trailing_space_start(s: Seq<char>, to: int, floor: int) -> int
    decreases to,
{
    if floor < to <= s.len() && 0 < to && is_white_space(s[to - 1]) {
        trailing_space_start(s, to - 1, floor)
    } else {
        to
    }
}

/// The text without the white space at its ends.
pub open spec fn trimmed(s: Seq<char>) -> Seq<char> {
    s.subrange(
        leading_space_end(s, 0),
        trailing_space_start(s, s.len() as int, leading_space_end(s, 0)),
    )
}

/// The text without the white space at its ends.
pub fn trim_text(s: &str) -> (r: &str)
    ensures
        r@ == trimmed(s@),
{
    let chars = chars_of(s);
    let mut start: usize = 0;
    while start < chars.len() && char_is_white_space(chars[start])
        invariant
            start <= chars.len(),
            chars@ == s@,
            leading_space_end(s@, 0) == leading_space_end(s@, start as int),
        decreases chars.len() - start,
    {
        start += 1;
    }
    let mut end: usize = chars.len();
    while end > start && char_is_white_space(chars[end - 1])
        invariant
            start <= end <= chars.len(),
            chars@ == s@,
            trailing_space_start(s@, s@.len() as int, start as int) == trailing_space_start(
                s@,
                end as int,
                start as int,
            ),
        decreases end,
    {
        end -= 1;
    }
    s.substring_char(start, end)
}

/// The text in lower case, by `str::to_lowercase`. The result is only named:
/// the case mapping is the standard library's matter.
#[verifier::external_body]
pub(crate) fn lowercase_text(s: &str) -> (r: String)
    ensures
        r@ == lowercased(s@),
{
    s.to_lowercase()
}

} // verus!
