use vstd::prelude::*;
use crate::order::{better, is_first_extreme_in, is_result, keys, Direction, Element};
use crate::split::{find_final_index, lemma_merge_adjacent, split_array};
use crate::scalar::scan_first_extreme;

verus! {

/// Lane `l` vouches for position `p`: its running value is at least as good
/// as `s[p]`, and if the two are equal its recorded index is no later than `p`.
pub open spec fn lane_covers(d: Direction, s: Seq<int>, vals: Seq<int>, idx: Seq<usize>, p: int, l: int) -> bool {
    &&& 0 <= l < vals.len()
    &&& !better(d, s[p], vals[l])
    &&& (vals[l] == s[p] ==> idx[l] as int <= p)
}

/// Some lane vouches for position `p`.
pub open spec fn covered(d: Direction, s: Seq<int>, vals: Seq<int>, idx: Seq<usize>, p: int) -> bool {
    exists|l: int| #[trigger] lane_covers(d, s, vals, idx, p, l)
}

/// The running extremum registers after a scan of `s[lo..hi]` on `w` lanes:
/// each lane holds a value of the range with its index, and every position
/// of the range is vouched for by some lane.
pub open spec fn registers_hold(d: Direction, s: Seq<int>, lo: int, hi: int, vals: Seq<int>, idx: Seq<usize>, w: int) -> bool {
    &&& vals.len() == w
    &&& idx.len() == w
    &&& forall|l: int| 0 <= l < w ==> lo <= #[trigger] idx[l] < hi && vals[l] == s[idx[l] as int]
    &&& forall|p: int| lo <= p < hi ==> #[trigger] covered(d, s, vals, idx, p)
}

/// Lane-parallel scan of `chunks` whole chunks of `w` elements starting at
/// `start`. Lane `l` runs over positions `start + l`, `start + l + w`, ...;
/// the registers start from the first chunk, and each later chunk replaces
/// a lane's value and index together where its element is strictly better.
pub fn scan_lanes<E: Element>(s: &[E], start: usize, chunks: usize, w: usize, d: Direction) -> (r: (Vec<E>, Vec<usize>))
    requires
        w >= 1,
        chunks >= 1,
        start + chunks * w == s@.len(),
    ensures
        registers_hold(d, keys(s@), start as int, s@.len() as int, keys(r.0@), r.1@, w as int),
{
    let ghost k = keys(s@);
    let end: usize = s.len();
    proof {
        assert(chunks * w >= w) by (nonlinear_arith)
            requires chunks >= 1, w >= 1;
    }
    let mut vals: Vec<E> = Vec::new();
    let mut idx: Vec<usize> = Vec::new();
    let mut l: usize = 0;
    while l < w
        invariant
            k == keys(s@),
            start + w <= end,
            end == s@.len(),
            l <= w,
            vals@.len() == l,
            idx@.len() == l,
            forall|j: int| 0 <= j < l ==> #[trigger] idx@[j] == start + j && keys(vals@)[j] == k[start + j],
        decreases w - l,
    {
        let ghost v0 = vals@;
        let ghost i0 = idx@;
        vals.push(s[start + l]);
        idx.push(start + l);
        proof {
            assert forall|j: int| 0 <= j < l + 1 implies #[trigger] idx@[j] == start + j && keys(vals@)[j] == k[start + j] by {
                if j < l {
                    assert(vals@[j] == v0[j]);
                    assert(i0[j] == start + j);
                }
            }
        }
        l = l + 1;
    }
    proof {
        assert forall|p: int| start <= p < start + w implies #[trigger] covered(d, k, keys(vals@), idx@, p) by {
            assert(idx@[p - start] == p);
            assert(lane_covers(d, k, keys(vals@), idx@, p, p - start));
        }
    }
    let mut c: usize = 1;
    let mut base: usize = start + w;
    while c < chunks
        invariant
            k == keys(s@),
            end == s@.len(),
            w >= 1,
            1 <= c <= chunks,
            base == start + c * w,
            start + chunks * w == end,
            base <= end,
            registers_hold(d, k, start as int, base as int, keys(vals@), idx@, w as int),
        decreases chunks - c,
    {
        proof {
            assert(base + w <= end) by (nonlinear_arith)
                requires c < chunks, base == start + c * w, start + chunks * w == end;
        }
        let mut l: usize = 0;
        while l < w
            invariant
                k == keys(s@),
                base + w <= end,
                end == s@.len(),
                l <= w,
                registers_hold(d, k, start as int, (base + l) as int, keys(vals@), idx@, w as int),
                forall|j: int| l <= j < w ==> #[trigger] idx@[j] < base,
            decreases w - l,
        {
            let p: usize = base + l;
            let ghost vk0 = keys(vals@);
            let ghost idx0 = idx@;
            let ghost old_vals = vals@;
            if s[p].better_than(&vals[l], d) {
                vals.set(l, s[p]);
                idx.set(l, p);
            }
            proof {
                let vk = keys(vals@);
                assert forall|j: int| 0 <= j < w implies start <= #[trigger] idx@[j] < p + 1 && vk[j] == k[idx@[j] as int] by {
                    if j != l {
                        assert(vals@[j] == old_vals[j]);
                        assert(vk0[j] == k[idx0[j] as int]);
                    }
                }
                assert forall|q: int| start <= q < p + 1 implies #[trigger] covered(d, k, vk, idx@, q) by {
                    if q == p {
                        assert(lane_covers(d, k, vk, idx@, q, l as int));
                    } else {
                        assert(covered(d, k, vk0, idx0, q));
                        let m = choose|m: int| #[trigger] lane_covers(d, k, vk0, idx0, q, m);
                        assert(lane_covers(d, k, vk, idx@, q, m));
                    }
                }
            }
            l = l + 1;
        }
        base = base + w;
        c = c + 1;
        proof {
            assert(base == start + c * w) by (nonlinear_arith)
                requires base == start + (c - 1) * w + w;
        }
    }
    (vals, idx)
}

/// One of the first `k` entries of `wk` is at least as good as `x`.
pub open spec fn matched_within(d: Direction, wk: Seq<int>, k: int, x: int) -> bool {
    exists|m: int| 0 <= m < k && !better(d, x, #[trigger] wk[m])
}

/// `y` is one of the values of `vk`.
pub open spec fn drawn_from(vk: Seq<int>, y: int) -> bool {
    exists|l: int| 0 <= l < vk.len() && #[trigger] vk[l] == y
}

/// Pairwise tree fold over the lanes: each round folds the upper half of
/// the active lanes onto the lower half, keeping the better value, until
/// one lane is left. Finds the best value, not which lane held it.
pub fn fold_best<E: Element>(vals: &Vec<E>, d: Direction) -> (best: E)
    requires
        vals@.len() >= 1,
    ensures
        forall|l: int| 0 <= l < vals@.len() ==> !better(d, #[trigger] keys(vals@)[l], best.key()),
        drawn_from(keys(vals@), best.key()),
{
    let ghost vk = keys(vals@);
    let w: usize = vals.len();
    let mut work: Vec<E> = Vec::new();
    let mut i: usize = 0;
    while i < w
        invariant
            vk == keys(vals@),
            w == vals@.len(),
            i <= w,
            work@.len() == i,
            forall|j: int| 0 <= j < i ==> #[trigger] work@[j] == vals@[j],
        decreases w - i,
    {
        work.push(vals[i]);
        i = i + 1;
    }
    proof {
        assert forall|l: int| 0 <= l < w implies #[trigger] matched_within(d, keys(work@), w as int, vk[l]) by {
            assert(keys(work@)[l] == vk[l]);
        }
        assert forall|m: int| 0 <= m < w implies #[trigger] drawn_from(vk, keys(work@)[m]) by {
            assert(vk[m] == keys(work@)[m]);
        }
    }
    let mut k: usize = w;
    while k > 1
        invariant
            vk == keys(vals@),
            w == vals@.len(),
            work@.len() == w,
            1 <= k <= w,
            forall|l: int| 0 <= l < w ==> #[trigger] matched_within(d, keys(work@), k as int, vk[l]),
            forall|m: int| 0 <= m < k ==> #[trigger] drawn_from(vk, keys(work@)[m]),
        decreases k,
    {
        let half: usize = k / 2;
        let h: usize = k - half;
        let ghost w0 = keys(work@);
        let mut m: usize = 0;
        while m < half
            invariant
                vk == keys(vals@),
                w == vals@.len(),
                w0.len() == w,
                work@.len() == w,
                forall|l: int| 0 <= l < w ==> #[trigger] matched_within(d, w0, k as int, vk[l]),
                forall|j: int| 0 <= j < k ==> #[trigger] drawn_from(vk, w0[j]),
                half + h == k <= w,
                half <= h,
                m <= half,
                forall|j: int| m <= j < w ==> #[trigger] keys(work@)[j] == w0[j],
                forall|j: int|
                    0 <= j < m ==> {
                        let x = #[trigger] keys(work@)[j];
                        &&& !better(d, w0[j], x)
                        &&& !better(d, w0[j + h], x)
                        &&& (x == w0[j] || x == w0[j + h])
                    },
            decreases half - m,
        {
            let ghost before = work@;
            if work[m + h].better_than(&work[m], d) {
                let x = work[m + h];
                work.set(m, x);
            }
            proof {
                assert forall|j: int| 0 <= j < w && j != m implies #[trigger] keys(work@)[j] == keys(before)[j] by {
                    assert(work@[j] == before[j]);
                }
                assert(keys(before)[m as int] == w0[m as int]);
                assert(keys(before)[m + h] == w0[m + h]);
            }
            m = m + 1;
        }
        proof {
            let wk = keys(work@);
            assert forall|l: int| 0 <= l < w implies #[trigger] matched_within(d, wk, h as int, vk[l]) by {
                assert(matched_within(d, w0, k as int, vk[l]));
                let m0 = choose|m0: int| 0 <= m0 < k && !better(d, vk[l], #[trigger] w0[m0]);
                if m0 < half {
                    assert(!better(d, vk[l], wk[m0]));
                } else if m0 < h {
                    assert(wk[m0] == w0[m0]);
                } else {
                    assert(!better(d, w0[m0 - h + h], wk[m0 - h]));
                    assert(!better(d, vk[l], wk[m0 - h]));
                }
            }
            assert forall|j: int| 0 <= j < h implies #[trigger] drawn_from(vk, wk[j]) by {
                if j < half {
                    assert(drawn_from(vk, w0[j]));
                    assert(drawn_from(vk, w0[j + h]));
                } else {
                    assert(drawn_from(vk, w0[j]));
                }
            }
        }
        k = h;
    }
    proof {
        assert forall|l: int| 0 <= l < w implies !better(d, #[trigger] vk[l], keys(work@)[0]) by {
            assert(matched_within(d, keys(work@), 1, vk[l]));
        }
        assert(drawn_from(vk, keys(work@)[0]));
    }
    work[0]
}

/// Index recorded for a lane that does not hold the best value: larger than
/// any real index, so it never wins the final scan.
pub const SENTINEL: usize = usize::MAX;

/// Collapses the lane registers to one (value, index) pair: the best value
/// over the lanes, and the smallest index among the lanes that hold it.
pub fn reduce_lanes<E: Element>(vals: &Vec<E>, idx: &Vec<usize>, d: Direction) -> (r: (E, usize))
    requires
        vals@.len() == idx@.len() >= 1,
        forall|l: int| 0 <= l < idx@.len() ==> #[trigger] idx@[l] < SENTINEL,
    ensures
        exists|l: int| 0 <= l < vals@.len() && #[trigger] idx@[l] == r.1 && vals@[l].key() == r.0.key(),
        forall|l: int| 0 <= l < vals@.len() ==> !better(d, #[trigger] keys(vals@)[l], r.0.key()),
        forall|l: int| 0 <= l < vals@.len() && #[trigger] keys(vals@)[l] == r.0.key() ==> r.1 <= idx@[l],
{
    let ghost vk = keys(vals@);
    let best = fold_best(vals, d);
    let w: usize = vals.len();
    let mut masked: Vec<usize> = Vec::new();
    let mut l: usize = 0;
    while l < w
        invariant
            vk == keys(vals@),
            w == vals@.len() == idx@.len(),
            l <= w,
            masked@.len() == l,
            forall|j: int| 0 <= j < l ==> #[trigger] masked@[j] == if vk[j] == best.key() { idx@[j] } else { SENTINEL },
        decreases w - l,
    {
        if vals[l].same_as(&best) {
            masked.push(idx[l]);
        } else {
            masked.push(SENTINEL);
        }
        l = l + 1;
    }
    let j = scan_first_extreme(masked.as_slice(), 0, w, Direction::Min);
    proof {
        let mk = keys(masked@);
        let l0 = choose|l0: int| 0 <= l0 < vk.len() && #[trigger] vk[l0] == best.key();
        assert(mk[l0] == masked@[l0]);
        assert(!better(Direction::Min, mk[l0], mk[j as int]));
        assert(mk[j as int] == masked@[j as int]);
        assert(masked@[j as int] < SENTINEL);
        assert(vk[j as int] == best.key());
        assert forall|q: int| 0 <= q < w && #[trigger] vk[q] == best.key() implies masked@[j as int] <= idx@[q] by {
            assert(mk[q] == masked@[q]);
        }
    }
    (vals[j], masked[j])
}

/// First extremum of the body `s[start..]`, made of `chunks` whole chunks
/// of `w` elements, with its value: a lane-parallel scan, then a
/// horizontal reduction.
pub fn body_extreme<E: Element>(s: &[E], start: usize, chunks: usize, w: usize, d: Direction) -> (r: (E, usize))
    requires
        w >= 1,
        chunks >= 1,
        start + chunks * w == s@.len(),
    ensures
        is_first_extreme_in(d, keys(s@), start as int, s@.len() as int, r.1 as int),
        r.0.key() == keys(s@)[r.1 as int],
{
    let ghost k = keys(s@);
    let n: usize = s.len();
    let ghost end = n as int;
    let (vals, idx) = scan_lanes(s, start, chunks, w, d);
    let ghost vk = keys(vals@);
    proof {
        assert forall|l: int| 0 <= l < idx@.len() implies #[trigger] idx@[l] < SENTINEL by {
            assert(idx@[l] < end);
        }
    }
    let r = reduce_lanes(&vals, &idx, d);
    proof {
        let v = r.0.key();
        let i = r.1 as int;
        let l1 = choose|l1: int| 0 <= l1 < vals@.len() && #[trigger] idx@[l1] == r.1 && vals@[l1].key() == v;
        assert(vk[l1] == k[idx@[l1] as int]);
        assert forall|p: int| start <= p < end implies !better(d, #[trigger] k[p], k[i]) by {
            assert(covered(d, k, vk, idx@, p));
            let l = choose|l: int| #[trigger] lane_covers(d, k, vk, idx@, p, l);
            assert(!better(d, vk[l], v));
        }
        assert forall|p: int| start <= p < i implies better(d, k[i], #[trigger] k[p]) by {
            assert(covered(d, k, vk, idx@, p));
            let l = choose|l: int| #[trigger] lane_covers(d, k, vk, idx@, p, l);
            assert(!better(d, vk[l], v));
            if k[p] == v {
                assert(vk[l] == v);
                assert(r.1 <= idx@[l]);
            }
        }
    }
    r
}

/// The whole pipeline on lanes of width `w`: split into a front remainder
/// and a body of whole chunks, scan the remainder plainly and the body lane
/// by lane, and merge the two results, the leftmost winning ties.
pub fn lanes_extreme<E: Element>(s: &[E], w: usize, d: Direction) -> (r: Option<usize>)
    requires
        w >= 1,
    ensures
        is_result(d, keys(s@), r),
{
    let ghost k = keys(s@);
    let n: usize = s.len();
    let parts = split_array(n, w);
    match (parts.remainder, parts.chunks) {
        (Some(m), Some(c)) => {
            let ri = scan_first_extreme(s, 0, m, d);
            let rem = (s[ri], ri);
            let body = body_extreme(s, m, c, w, d);
            let r = find_final_index(d, Some(rem), Some(body));
            proof {
                lemma_merge_adjacent(d, k, 0, m as int, n as int, ri as int, body.1 as int);
            }
            r
        },
        (Some(m), None) => Some(scan_first_extreme(s, 0, m, d)),
        (None, Some(c)) => {
            let body = body_extreme(s, 0, c, w, d);
            Some(body.1)
        },
        (None, None) => None,
    }
}

} // verus!
