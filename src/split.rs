use vstd::prelude::*;
use crate::order::{better, is_first_extreme_in, Direction, Element};

verus! {

/// A sequence of length `n` cut for lanes of width `w`: a remainder at the
/// front, handled by the scalar scan, and a body of whole chunks after it.
/// Each part is absent when it would be empty.
#[derive(PartialEq, Eq, Structural, Clone, Copy, Debug)]
pub struct Split {
    /// Length of the front remainder (`0 < len < w`), if any.
    pub remainder: Option<usize>,
    /// Number of whole chunks of `w` elements in the body, if any.
    pub chunks: Option<usize>,
}

/// The remainder takes the front `n % w` elements; the body, the
/// `n / w` chunks that follow.
pub open spec fn split_spec(n: nat, w: nat) -> Split
    recommends
        w > 0,
{
    Split {
        remainder: if n % w == 0 { None } else { Some((n % w) as usize) },
        chunks: if n / w == 0 { None } else { Some((n / w) as usize) },
    }
}

/// Cuts a length `n` into a front remainder and a body of whole chunks of
/// `w` elements. A sequence shorter than `w` is all remainder.
pub fn split_array(n: usize, w: usize) -> (r: Split)
    requires
        w > 0,
    ensures
        r == split_spec(n as nat, w as nat),
        (r.remainder matches Some(m) ==> 0 < m < w),
        n == (match r.remainder { Some(m) => m as int, None => 0 }) + (match r.chunks {
            Some(c) => c * w,
            None => 0,
        }),
{
    let m = n % w;
    let c = n / w;
    proof {
        vstd::arithmetic::div_mod::lemma_fundamental_div_mod(n as int, w as int);
        assert(c * w == w * c) by (nonlinear_arith);
    }
    Split {
        remainder: if m == 0 { None } else { Some(m) },
        chunks: if c == 0 { None } else { Some(c) },
    }
}

/// The index chosen from a remainder result and a body result: each is a
/// value with its index, the remainder's lying before the body's. The body
/// wins only when its value is strictly better, so a tie goes to the
/// leftmost index.
pub open spec fn merged(d: Direction, rem: Option<(int, usize)>, body: Option<(int, usize)>) -> Option<usize> {
    match (rem, body) {
        (Some(a), Some(b)) => if better(d, b.0, a.0) { Some(b.1) } else { Some(a.1) },
        (Some(a), None) => Some(a.1),
        (None, Some(b)) => Some(b.1),
        (None, None) => None,
    }
}

/// Key and index of an optional scan result.
pub open spec fn keyed<E: Element>(x: Option<(E, usize)>) -> Option<(int, usize)> {
    match x {
        Some(p) => Some((p.0.key(), p.1)),
        None => None,
    }
}

/// Combines the remainder's result and the body's result into the final
/// index.
pub fn find_final_index<E: Element>(d: Direction, rem: Option<(E, usize)>, body: Option<(E, usize)>) -> (r: Option<usize>)
    ensures
        r == merged(d, keyed(rem), keyed(body)),
{
    match (rem, body) {
        (Some(a), Some(b)) => if b.0.better_than(&a.0, d) {
            Some(b.1)
        } else {
            Some(a.1)
        },
        (Some(a), None) => Some(a.1),
        (None, Some(b)) => Some(b.1),
        (None, None) => None,
    }
}

/// Merging the first extremum of `s[lo..mid]` with that of `s[mid..hi]`
/// gives the first extremum of `s[lo..hi]`.
pub proof fn lemma_merge_adjacent(d: Direction, s: Seq<int>, lo: int, mid: int, hi: int, a: int, b: int)
    requires
        is_first_extreme_in(d, s, lo, mid, a),
        is_first_extreme_in(d, s, mid, hi, b),
    ensures
        is_first_extreme_in(d, s, lo, hi, if better(d, s[b], s[a]) { b } else { a }),
{
}

} // verus!
