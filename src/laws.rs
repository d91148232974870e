use vstd::prelude::*;
use crate::order::{better, is_first_extreme, is_result, Direction};
use crate::split::{split_spec, Split};

verus! {

/// A sequence has at most one first position of its extremum.
pub proof fn lemma_first_extreme_unique(d: Direction, s: Seq<int>, i: int, j: int)
    requires
        is_first_extreme(d, s, i),
        is_first_extreme(d, s, j),
    ensures
        i == j,
{
    if i < j {
        assert(!better(d, s[i], s[j]));
    } else if j < i {
        assert(!better(d, s[j], s[i]));
    }
}

/// The lane-parallel entry points and the plain scan agree: on a non-empty
/// sequence, any result an entry point may return is the plain scan's index.
pub proof fn law_lanes_agree_with_scan(d: Direction, s: Seq<int>, r: Option<usize>, i: usize)
    requires
        is_result(d, s, r),
        is_first_extreme(d, s, i as int),
    ensures
        r == Some(i),
{
    match r {
        Some(j) => lemma_first_extreme_unique(d, s, i as int, j as int),
        None => {},
    }
}

/// Two calls on the same unmodified sequence return the same result.
pub proof fn law_repeat_calls_agree(d: Direction, s: Seq<int>, r1: Option<usize>, r2: Option<usize>)
    requires
        is_result(d, s, r1),
        is_result(d, s, r2),
    ensures
        r1 == r2,
{
    match (r1, r2) {
        (Some(i), Some(j)) => lemma_first_extreme_unique(d, s, i as int, j as int),
        _ => {},
    }
}

/// An empty sequence has no result.
pub proof fn law_empty_has_no_result(d: Direction, s: Seq<int>, r: Option<usize>)
    requires
        s.len() == 0,
        is_result(d, s, r),
    ensures
        r.is_none(),
{
}

/// A sequence of one element has its extremum at position 0.
pub proof fn law_single_element(d: Direction, s: Seq<int>)
    requires
        s.len() == 1,
    ensures
        is_result(d, s, Some(0)),
{
}

/// A non-empty sequence shorter than one lane is all remainder: it goes to
/// the plain scan whole, with no body.
pub proof fn law_short_input_is_remainder(n: nat, w: nat)
    requires
        0 < n < w,
    ensures
        split_spec(n, w) == (Split { remainder: Some(n as usize), chunks: None }),
{
    vstd::arithmetic::div_mod::lemma_small_mod(n, w);
    vstd::arithmetic::div_mod::lemma_basic_div(n as int, w as int);
}

} // verus!
