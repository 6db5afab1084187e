//! Searching and comparing text, character by character.

use vstd::prelude::*;
use vstd::std_specs::iter::IteratorSpec;
use vstd::string::StringSliceAdditionalSpecFns;

verus! {

/// Whether `pat` occurs in `s` starting at position `at`.
pub open spec fn occurs_at(s: Seq<char>, pat: Seq<char>, at: int) -> bool {
    0 <= at && at + pat.len() <= s.len() && s.subrange(at, at + pat.len()) == pat
}

/// Whether `s` begins with `pat`.
pub open spec fn has_prefix(s: Seq<char>, pat: Seq<char>) -> bool {
    occurs_at(s, pat, 0)
}

/// Whether `pat` occurs somewhere in `s`.
pub open spec fn has_sub(s: Seq<char>, pat: Seq<char>) -> bool {
    exists|at: int| occurs_at(s, pat, at)
}

/// Whether `at` is the leftmost position at which `pat` occurs in `s`.
pub open spec fn first_occurrence(s: Seq<char>, pat: Seq<char>, at: int) -> bool {
    occurs_at(s, pat, at) && forall|j: int| 0 <= j < at ==> !occurs_at(s, pat, j)
}

/// The leftmost position at which `pat` occurs in `s`, where there is one.
pub open spec fn first_index_of(s: Seq<char>, pat: Seq<char>) -> int {
    choose|at: int| first_occurrence(s, pat, at)
}

/// Whether `at` is the rightmost position at which `pat` occurs in `s`.
pub open spec fn last_occurrence(s: Seq<char>, pat: Seq<char>, at: int) -> bool {
    occurs_at(s, pat, at) && forall|j: int| at < j ==> !occurs_at(s, pat, j)
}

/// The rightmost position at which `pat` occurs in `s`, where there is one.
pub open spec fn last_index_of(s: Seq<char>, pat: Seq<char>) -> int {
    choose|at: int| last_occurrence(s, pat, at)
}

/// The rightmost occurrence is unique, so `last_index_of` names it.
pub proof fn lemma_last_occurrence_unique(s: Seq<char>, pat: Seq<char>, at: int)
    requires
        last_occurrence(s, pat, at),
    ensures
        last_index_of(s, pat) == at,
        has_sub(s, pat),
{
    let other = last_index_of(s, pat);
    assert(last_occurrence(s, pat, other));
    if other < at {
        assert(!occurs_at(s, pat, at));
    }
    if at < other {
        assert(!occurs_at(s, pat, other));
    }
}

/// The leftmost occurrence is unique, so `first_index_of` names it.
pub proof fn lemma_first_occurrence_unique(s: Seq<char>, pat: Seq<char>, at: int)
    requires
        first_occurrence(s, pat, at),
    ensures
        first_index_of(s, pat) == at,
        has_sub(s, pat),
{
    let other = first_index_of(s, pat);
    assert(first_occurrence(s, pat, other));
    if other < at {
        assert(!occurs_at(s, pat, other));
    }
    if at < other {
        assert(!occurs_at(s, pat, at));
    }
}

/// Where `pat` occurs at `at` and nowhere before `from`, it has a leftmost
/// occurrence.
proof fn lemma_leftmost_from(s: Seq<char>, pat: Seq<char>, at: int, from: int)
    requires
        occurs_at(s, pat, at),
        0 <= from <= at,
        forall|j: int| 0 <= j < from ==> !occurs_at(s, pat, j),
    ensures
        exists|k: int| first_occurrence(s, pat, k),
    decreases at - from,
{
    if occurs_at(s, pat, from) {
        assert(first_occurrence(s, pat, from));
    } else {
        lemma_leftmost_from(s, pat, at, from + 1);
    }
}

/// Where `pat` occurs at `at` and nowhere after `from`, it has a rightmost
/// occurrence.
proof fn lemma_rightmost_from(s: Seq<char>, pat: Seq<char>, at: int, from: int)
    requires
        occurs_at(s, pat, at),
        at <= from,
        forall|j: int| from < j ==> !occurs_at(s, pat, j),
    ensures
        exists|k: int| last_occurrence(s, pat, k),
    decreases from - at,
{
    if occurs_at(s, pat, from) {
        assert(last_occurrence(s, pat, from));
    } else {
        lemma_rightmost_from(s, pat, at, from - 1);
    }
}

/// What occurs somewhere has a leftmost and a rightmost occurrence, and
/// `first_index_of` and `last_index_of` are those.
pub proof fn lemma_occurrences_have_ends(s: Seq<char>, pat: Seq<char>)
    requires
        has_sub(s, pat),
    ensures
        first_occurrence(s, pat, first_index_of(s, pat)),
        last_occurrence(s, pat, last_index_of(s, pat)),
{
    let at = choose|at: int| occurs_at(s, pat, at);
    lemma_leftmost_from(s, pat, at, 0);
    lemma_rightmost_from(s, pat, at, s.len() as int);
}

/// What occurs in a text occurs at the same place in every extension of
/// it, and the leftmost occurrence stays the leftmost.
pub proof fn lemma_first_occurrence_extends(s: Seq<char>, more: Seq<char>, pat: Seq<char>, at: int)
    requires
        first_occurrence(s, pat, at),
    ensures
        first_occurrence(s + more, pat, at),
{
    let longer = s + more;
    assert(longer.subrange(at, at + pat.len()) =~= s.subrange(at, at + pat.len()));
    assert forall|j: int| 0 <= j < at implies !occurs_at(longer, pat, j) by {
        assert(j + pat.len() <= s.len());
        assert(!occurs_at(s, pat, j));
        assert(longer.subrange(j, j + pat.len()) =~= s.subrange(j, j + pat.len()));
    }
}

/// The characters of `s`.
pub fn chars_of(s: &str) -> (v: Vec<char>)
    ensures
        v@ == s@,
{
    broadcast use vstd::string::group_string_axioms;

    let mut it = s.chars();
    let mut v: Vec<char> = Vec::new();
    loop
        invariant
            it.obeys_prophetic_iter_laws(),
            v@ + it.remaining() == s@,
        ensures
            v@ == s@,
        decreases s@.len() - v@.len(),
    {
        let ghost before = it.remaining();
        match it.next() {
            Some(c) => {
                v.push(c);
                assert(v@ + it.remaining() =~= (v@.drop_last() + before));
            },
            None => {
                assert(v@ + it.remaining() =~= v@);
                break ;
            },
        }
    }
    v
}

/// Whether the two texts are the same.
pub fn same_text(a: &str, b: &str) -> (same: bool)
    ensures
        same == (a@ == b@),
{
    broadcast use vstd::utf8::encode_utf8_decode_utf8;

    let x = a.as_bytes();
    let y = b.as_bytes();
    let n = x.len();
    if n != y.len() {
        return false;
    }
    let mut i: usize = 0;
    while i < n
        invariant
            n == x@.len(),
            n == y@.len(),
            i <= n,
            x@ == a.spec_bytes(),
            y@ == b.spec_bytes(),
            x@.subrange(0, i as int) == y@.subrange(0, i as int),
        decreases n - i,
    {
        if x[i] != y[i] {
            assert(x@[i as int] != y@[i as int]);
            return false;
        }
        i += 1;
        assert(x@.subrange(0, i as int) =~= x@.subrange(0, i - 1).push(x@[i - 1]));
        assert(y@.subrange(0, i as int) =~= y@.subrange(0, i - 1).push(y@[i - 1]));
    }
    assert(x@.subrange(0, n as int) =~= x@);
    assert(y@.subrange(0, n as int) =~= y@);
    assert(vstd::utf8::decode_utf8(vstd::utf8::encode_utf8(a@)) == a@);
    assert(vstd::utf8::decode_utf8(vstd::utf8::encode_utf8(b@)) == b@);
    true
}

/// Whether `pat` occurs in `s` at position `at`.
pub fn matches_at(s: &Vec<char>, pat: &Vec<char>, at: usize) -> (hit: bool)
    ensures
        hit == occurs_at(s@, pat@, at as int),
{
    if at > s.len() || pat.len() > s.len() - at {
        return false;
    }
    let mut k: usize = 0;
    while k < pat.len()
        invariant
            at + pat@.len() <= s@.len() <= usize::MAX,
            k <= pat@.len(),
            s@.subrange(at as int, at + k) == pat@.subrange(0, k as int),
        decreases pat.len() - k,
    {
        if s[at + k] != pat[k] {
            assert(s@.subrange(at as int, at + pat@.len())[k as int] != pat@[k as int]);
            return false;
        }
        k += 1;
        assert(s@.subrange(at as int, at + k) =~= s@.subrange(at as int, at + k - 1).push(
            s@[at + k - 1],
        ));
        assert(pat@.subrange(0, k as int) =~= pat@.subrange(0, k - 1).push(pat@[k - 1]));
    }
    assert(pat@.subrange(0, pat@.len() as int) =~= pat@);
    true
}

/// The leftmost position at which `pat` occurs in `s`.
pub fn find_sub(s: &Vec<char>, pat: &Vec<char>) -> (found: Option<usize>)
    ensures
        found is Some == has_sub(s@, pat@),
        found is Some ==> first_occurrence(s@, pat@, found->0 as int),
{
    if pat.len() > s.len() {
        assert forall|j: int| !occurs_at(s@, pat@, j) by {}
        return None;
    }
    let last = s.len() - pat.len();
    let mut at: usize = 0;
    while at < last
        invariant
            last == s@.len() - pat@.len(),
            at <= last,
            forall|j: int| 0 <= j < at ==> !occurs_at(s@, pat@, j),
        decreases last - at,
    {
        if matches_at(s, pat, at) {
            return Some(at);
        }
        at += 1;
    }
    if matches_at(s, pat, at) {
        return Some(at);
    }
    assert forall|j: int| !occurs_at(s@, pat@, j) by {
        if 0 <= j && j + pat@.len() <= s@.len() {
            assert(j <= at);
        }
    }
    None
}

/// The rightmost position at which `pat` occurs in `s`.
pub fn find_last_sub(s: &Vec<char>, pat: &Vec<char>) -> (found: Option<usize>)
    ensures
        found is Some == has_sub(s@, pat@),
        found is Some ==> last_occurrence(s@, pat@, found->0 as int),
{
    if pat.len() > s.len() {
        assert forall|j: int| !occurs_at(s@, pat@, j) by {}
        return None;
    }
    let last = s.len() - pat.len();
    let mut at: usize = last;
    while at > 0
        invariant
            last == s@.len() - pat@.len(),
            at <= last,
            forall|j: int| at < j ==> !occurs_at(s@, pat@, j),
        decreases at,
    {
        if matches_at(s, pat, at) {
            return Some(at);
        }
        at -= 1;
    }
    if matches_at(s, pat, at) {
        return Some(at);
    }
    assert forall|j: int| !occurs_at(s@, pat@, j) by {}
    None
}

} // verus!
