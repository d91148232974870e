use vstd::prelude::*;
use crate::order::{is_result, keys, Direction, Element};
use crate::scalar::scan_first_extreme;
use crate::lanes::lanes_extreme;

verus! {

/// Register width used for the lane-parallel path, or the plain scan.
/// The choice affects speed only, never the index returned.
#[derive(PartialEq, Eq, Structural, Clone, Copy, Debug)]
pub enum Tier {
    Scalar,
    Lanes128,
    Lanes256,
}

/// An element type with a lane-parallel implementation.
pub trait LaneType: Element {
    /// Number of elements that fit in a 128-bit register.
    fn lanes_128() -> (w: usize)
        ensures
            1 <= w <= 16,
    ;
}

impl LaneType for i32 {
    fn lanes_128() -> (w: usize) {
        4
    }
}

impl LaneType for i16 {
    fn lanes_128() -> (w: usize) {
        8
    }
}

impl LaneType for u16 {
    fn lanes_128() -> (w: usize) {
        8
    }
}

impl LaneType for u8 {
    fn lanes_128() -> (w: usize) {
        16
    }
}

/// Lane width of `E` at the given tier; none for the plain scan.
pub fn lane_width<E: LaneType>(tier: Tier) -> (r: Option<usize>)
    ensures
        r.is_none() <==> tier == Tier::Scalar,
        r matches Some(w) ==> w >= 1,
{
    match tier {
        Tier::Scalar => None,
        Tier::Lanes128 => Some(E::lanes_128()),
        Tier::Lanes256 => Some(2 * E::lanes_128()),
    }
}

/// Picks the plain scan or the lane pipeline for this call: the plain scan
/// when the tier has no lanes or the input is shorter than one lane.
pub fn extreme_with<E: LaneType>(s: &[E], tier: Tier, d: Direction) -> (r: Option<usize>)
    ensures
        is_result(d, keys(s@), r),
{
    let n: usize = s.len();
    match lane_width::<E>(tier) {
        Some(w) => {
            if n < w {
                if n == 0 {
                    None
                } else {
                    Some(scan_first_extreme(s, 0, n, d))
                }
            } else {
                lanes_extreme(s, w, d)
            }
        },
        None => {
            if n == 0 {
                None
            } else {
                Some(scan_first_extreme(s, 0, n, d))
            }
        },
    }
}

/// First position of the minimum of `s` at the given tier; none when `s`
/// is empty.
pub fn argmin_with<E: LaneType>(s: &[E], tier: Tier) -> (r: Option<usize>)
    ensures
        is_result(Direction::Min, keys(s@), r),
{
    extreme_with(s, tier, Direction::Min)
}

/// First position of the maximum of `s` at the given tier; none when `s`
/// is empty.
pub fn argmax_with<E: LaneType>(s: &[E], tier: Tier) -> (r: Option<usize>)
    ensures
        is_result(Direction::Max, keys(s@), r),
{
    extreme_with(s, tier, Direction::Max)
}

/// Index of the first minimum and of the first maximum of a sequence.
pub trait ArgMinMax {
    /// The elements' keys, in order.
    spec fn key_seq(&self) -> Seq<int>;

    fn argmin(&self) -> (r: Option<usize>)
        ensures
            is_result(Direction::Min, self.key_seq(), r),
    ;

    fn argmax(&self) -> (r: Option<usize>)
        ensures
            is_result(Direction::Max, self.key_seq(), r),
    ;
}

impl<E: LaneType> ArgMinMax for [E] {
    open spec fn key_seq(&self) -> Seq<int> {
        keys(self@)
    }

    fn argmin(&self) -> (r: Option<usize>) {
        argmin_with(self, Tier::Lanes128)
    }

    fn argmax(&self) -> (r: Option<usize>) {
        argmax_with(self, Tier::Lanes128)
    }
}

impl<E: LaneType> ArgMinMax for Vec<E> {
    open spec fn key_seq(&self) -> Seq<int> {
        keys(self@)
    }

    fn argmin(&self) -> (r: Option<usize>) {
        argmin_with(self.as_slice(), Tier::Lanes128)
    }

    fn argmax(&self) -> (r: Option<usize>) {
        argmax_with(self.as_slice(), Tier::Lanes128)
    }
}

/// Lane-parallel first minimum of 32-bit signed integers.
pub fn argmin_i32(s: &[i32]) -> (r: Option<usize>)
    ensures
        is_result(Direction::Min, keys(s@), r),
{
    argmin_with(s, Tier::Lanes128)
}

/// Lane-parallel first maximum of 32-bit signed integers.
pub fn argmax_i32(s: &[i32]) -> (r: Option<usize>)
    ensures
        is_result(Direction::Max, keys(s@), r),
{
    argmax_with(s, Tier::Lanes128)
}

/// Lane-parallel first minimum of 16-bit signed integers.
pub fn argmin_i16(s: &[i16]) -> (r: Option<usize>)
    ensures
        is_result(Direction::Min, keys(s@), r),
{
    argmin_with(s, Tier::Lanes128)
}

/// Lane-parallel first maximum of 16-bit signed integers.
pub fn argmax_i16(s: &[i16]) -> (r: Option<usize>)
    ensures
        is_result(Direction::Max, keys(s@), r),
{
    argmax_with(s, Tier::Lanes128)
}

/// Lane-parallel first minimum of 16-bit unsigned integers.
pub fn argmin_u16(s: &[u16]) -> (r: Option<usize>)
    ensures
        is_result(Direction::Min, keys(s@), r),
{
    argmin_with(s, Tier::Lanes128)
}

/// Lane-parallel first maximum of 16-bit unsigned integers.
pub fn argmax_u16(s: &[u16]) -> (r: Option<usize>)
    ensures
        is_result(Direction::Max, keys(s@), r),
{
    argmax_with(s, Tier::Lanes128)
}

/// Lane-parallel first minimum of 8-bit unsigned integers.
pub fn argmin_u8(s: &[u8]) -> (r: Option<usize>)
    ensures
        is_result(Direction::Min, keys(s@), r),
{
    argmin_with(s, Tier::Lanes128)
}

/// Lane-parallel first maximum of 8-bit unsigned integers.
pub fn argmax_u8(s: &[u8]) -> (r: Option<usize>)
    ensures
        is_result(Direction::Max, keys(s@), r),
{
    argmax_with(s, Tier::Lanes128)
}

} // verus!
