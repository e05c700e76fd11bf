//! Text comparison used by the rule matchers: case folding, substring
//! search, and the conversion of strings to sequences of characters.
//!
//! All comparisons in this crate are made on folded text, that is on the
//! characters that `str::to_lowercase` returns.

use vstd::prelude::*;

verus! {

/// The lowercase form of a text, as `str::to_lowercase` computes it.
///
/// The Unicode case mapping is not written out here. Nothing is claimed of
/// this function beyond what [`str::to_lowercase`] is specified to return.
pub uninterp spec fn lowercase(s: Seq<char>) -> Seq<char>;

/// Specifies `str::to_lowercase` of the standard library: the characters of
/// the returned string are the lowercase form of the characters of `s`, a
/// function of `s` alone. This is believed, not proved.
pub assume_specification[ str::to_lowercase ](s: &str) -> (folded: String)
    ensures
        folded@ == lowercase(s@),
;

/// `needle` stands in `hay` at position `at`.
pub open spec fn occurs_at(hay: Seq<char>, needle: Seq<char>, at: int) -> bool {
    &&& 0 <= at
    &&& at + needle.len() <= hay.len()
    &&& forall|k: int| 0 <= k < needle.len() ==> hay[at + k] == needle[k]
}

/// `needle` is a contiguous part of `hay`. The empty text is part of every
/// text.
pub open spec fn contains(hay: Seq<char>, needle: Seq<char>) -> bool {
    exists|at: int| occurs_at(hay, needle, at)
}

/// `hay` contains `needle` once both are folded to lowercase.
pub open spec fn contains_folded(hay: Seq<char>, needle: Seq<char>) -> bool {
    contains(lowercase(hay), lowercase(needle))
}

/// `a` and `b` are the same text once both are folded to lowercase.
pub open spec fn equal_folded(a: Seq<char>, b: Seq<char>) -> bool {
    lowercase(a) == lowercase(b)
}

/// The characters of `s`, in order.
pub fn chars_of(s: &str) -> (v: Vec<char>)
    ensures
        v@ == s@,
{
    let mut v: Vec<char> = Vec::new();
    for c in it: s.chars()
        invariant
            it.seq() == s@,
            v@ == it.seq().take(it.index() as int),
    {
        v.push(c);
    }
    v
}

/// The folded characters of `s`.
pub fn fold(s: &str) -> (v: Vec<char>)
    ensures
        v@ == lowercase(s@),
{
    let folded = s.to_lowercase();
    chars_of(folded.as_str())
}

/// Tests whether `needle` stands in `hay` at position `at`.
pub fn occurs_at_index(hay: &Vec<char>, needle: &Vec<char>, at: usize) -> (found: bool)
    ensures
        found == occurs_at(hay@, needle@, at as int),
{
    let count: usize = needle.len();
    let size: usize = hay.len();
    if at > size || count > size - at {
        return false;
    }
    let mut k: usize = 0;
    while k < count
        invariant
            k <= count,
            count == needle@.len(),
            size == hay@.len(),
            at + count <= size,
            forall|j: int| 0 <= j < k ==> hay@[at + j] == needle@[j],
        decreases count - k,
    {
        if hay[at + k] != needle[k] {
            return false;
        }
        k += 1;
    }
    true
}

/// Tests whether `needle` is a contiguous part of `hay`.
pub fn contains_chars(hay: &Vec<char>, needle: &Vec<char>) -> (found: bool)
    ensures
        found == contains(hay@, needle@),
{
    if needle.len() > hay.len() {
        return false;
    }
    let last: usize = hay.len() - needle.len();
    let mut at: usize = 0;
    while at < last
        invariant
            last == hay@.len() - needle@.len(),
            at <= last,
            forall|j: int| 0 <= j < at ==> !occurs_at(hay@, needle@, j),
        decreases last - at,
    {
        if occurs_at_index(hay, needle, at) {
            return true;
        }
        at += 1;
    }
    occurs_at_index(hay, needle, last)
}

/// Tests whether two texts hold the same characters.
pub fn same_chars(a: &Vec<char>, b: &Vec<char>) -> (same: bool)
    ensures
        same == (a@ == b@),
{
    if a.len() != b.len() {
        return false;
    }
    let found = occurs_at_index(a, b, 0);
    proof {
        if found {
            assert(a@ =~= b@);
        }
    }
    found
}

} // verus!
