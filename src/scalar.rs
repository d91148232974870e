use vstd::prelude::*;
use crate::order::{better, is_first_extreme, is_first_extreme_in, keys, Direction, Element};

verus! {

/// Single left-to-right scan of `s[lo..hi]`: the first position of its
/// extremum, as an index into `s`. Only a strictly better element displaces
/// the running best, so equal values never move the index past their first
/// occurrence.
pub fn scan_first_extreme<E: Element>(s: &[E], lo: usize, hi: usize, d: Direction) -> (r: usize)
    requires
        lo < hi <= s@.len(),
    ensures
        is_first_extreme_in(d, keys(s@), lo as int, hi as int, r as int),
{
    let ghost k = keys(s@);
    let mut best: usize = lo;
    let mut i: usize = lo + 1;
    while i < hi
        invariant
            k == keys(s@),
            lo < i <= hi <= s@.len(),
            lo <= best < i,
            forall|j: int| lo <= j < i ==> !better(d, #[trigger] k[j], k[best as int]),
            forall|j: int| lo <= j < best ==> better(d, k[best as int], #[trigger] k[j]),
        decreases hi - i,
    {
        if s[i].better_than(&s[best], d) {
            best = i;
        }
        i = i + 1;
    }
    best
}

/// Position of the first minimum of a non-empty sequence, by a plain scan.
pub fn simple_argmin<E: Element>(s: &[E]) -> (r: usize)
    requires
        s@.len() > 0,
    ensures
        is_first_extreme(Direction::Min, keys(s@), r as int),
{
    scan_first_extreme(s, 0, s.len(), Direction::Min)
}

/// Position of the first maximum of a non-empty sequence, by a plain scan.
pub fn simple_argmax<E: Element>(s: &[E]) -> (r: usize)
    requires
        s@.len() > 0,
    ensures
        is_first_extreme(Direction::Max, keys(s@), r as int),
{
    scan_first_extreme(s, 0, s.len(), Direction::Max)
}

} // verus!
