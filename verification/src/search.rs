//! The first position in a sequence at which a predicate holds, the way
//! `Iterator::position` finds it.
use vstd::prelude::*;

verus! {

/// `i` is the first position of `s` at which `p` holds.
pub open spec fn is_first_match<A>(s: Seq<A>, p: spec_fn(A) -> bool, i: int) -> bool {
    &&& 0 <= i < s.len()
    &&& p(s[i])
    &&& forall|j: int| 0 <= j < i ==> !p(#[trigger] s[j])
}

/// The first position of `s` at which `p` holds, or -1 when there is none.
pub open spec fn first_match<A>(s: Seq<A>, p: spec_fn(A) -> bool) -> int {
    if exists|i: int| is_first_match(s, p, i) {
        choose|i: int| is_first_match(s, p, i)
    } else {
        -1
    }
}

/// A first match is the first match.
pub proof fn lemma_first_match_is<A>(s: Seq<A>, p: spec_fn(A) -> bool, i: int)
    requires
        is_first_match(s, p, i),
    ensures
        first_match(s, p) == i,
{
    let k = choose|k: int| is_first_match(s, p, k);
    assert(is_first_match(s, p, k));
    if k < i {
        assert(!p(s[k]));
    } else if i < k {
        assert(!p(s[i]));
    }
}

/// Where `p` holds nowhere, there is no match.
pub proof fn lemma_first_match_none<A>(s: Seq<A>, p: spec_fn(A) -> bool)
    requires
        forall|j: int| 0 <= j < s.len() ==> !p(#[trigger] s[j]),
    ensures
        first_match(s, p) == -1,
{
    if exists|i: int| is_first_match(s, p, i) {
        let k = choose|k: int| is_first_match(s, p, k);
        assert(p(s[k]));
    }
}

/// What a first match is, in both cases.
pub proof fn lemma_first_match_facts<A>(s: Seq<A>, p: spec_fn(A) -> bool)
    ensures
        -1 <= first_match(s, p) < s.len(),
        first_match(s, p) >= 0 ==> is_first_match(s, p, first_match(s, p)),
        first_match(s, p) == -1 ==> forall|j: int| 0 <= j < s.len() ==> !p(#[trigger] s[j]),
{
    if exists|i: int| is_first_match(s, p, i) {
        let k = choose|k: int| is_first_match(s, p, k);
        assert(is_first_match(s, p, k));
    } else {
        assert forall|j: int| 0 <= j < s.len() implies !p(#[trigger] s[j]) by {
            if p(s[j]) {
                // the least such position would be a first match
                let m = least_match(s, p, j);
                assert(is_first_match(s, p, m));
            }
        }
    }
}

/// The least position at or below `j` at which `p` holds, given one at `j`.
proof fn least_match<A>(s: Seq<A>, p: spec_fn(A) -> bool, j: int) -> (m: int)
    requires
        0 <= j < s.len(),
        p(s[j]),
    ensures
        is_first_match(s, p, m),
    decreases j,
{
    if exists|k: int| 0 <= k < j && p(#[trigger] s[k]) {
        let k = choose|k: int| 0 <= k < j && p(#[trigger] s[k]);
        least_match(s, p, k)
    } else {
        j
    }
}

/// Appending an element keeps an earlier first match, and gives the new
/// position when there was none and the element matches.
pub proof fn lemma_first_match_push<A>(s: Seq<A>, p: spec_fn(A) -> bool, x: A)
    ensures
        first_match(s, p) >= 0 ==> first_match(s.push(x), p) == first_match(s, p),
        first_match(s, p) == -1 && p(x) ==> first_match(s.push(x), p) == s.len(),
        first_match(s, p) == -1 && !p(x) ==> first_match(s.push(x), p) == -1,
{
    lemma_first_match_facts(s, p);
    let t = s.push(x);
    if first_match(s, p) >= 0 {
        let i = first_match(s, p);
        assert(is_first_match(t, p, i)) by {
            assert forall|j: int| 0 <= j < i implies !p(#[trigger] t[j]) by {
                assert(t[j] == s[j]);
            }
        }
        lemma_first_match_is(t, p, i);
    } else {
        if p(x) {
            assert(is_first_match(t, p, s.len() as int)) by {
                assert forall|j: int| 0 <= j < s.len() implies !p(#[trigger] t[j]) by {
                    assert(t[j] == s[j]);
                }
            }
            lemma_first_match_is(t, p, s.len() as int);
        } else {
            assert forall|j: int| 0 <= j < t.len() implies !p(#[trigger] t[j]) by {
                if j < s.len() {
                    assert(t[j] == s[j]);
                }
            }
            lemma_first_match_none(t, p);
        }
    }
}

} // verus!
