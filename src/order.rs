use vstd::prelude::*;

verus! {

/// Which extremum a scan looks for.
#[derive(PartialEq, Eq, Structural, Clone, Copy, Debug)]
pub enum Direction {
    Min,
    Max,
}

/// `a` is strictly better than `b`: smaller when looking for the minimum,
/// larger when looking for the maximum.
pub open spec fn better(d: Direction, a: int, b: int) -> bool {
    match d {
        Direction::Min => a < b,
        Direction::Max => a > b,
    }
}

/// `i` is the first position of the extremum of `s` between `lo`
/// (included) and `hi` (excluded): nothing there beats `s[i]`, and `s[i]`
/// strictly beats everything in the range before it.
pub open spec fn is_first_extreme_in(d: Direction, s: Seq<int>, lo: int, hi: int, i: int) -> bool {
    &&& 0 <= lo <= i < hi <= s.len()
    &&& forall|j: int| lo <= j < hi ==> !better(d, #[trigger] s[j], s[i])
    &&& forall|j: int| lo <= j < i ==> better(d, s[i], #[trigger] s[j])
}

/// `i` is the first position of the extremum of the whole of `s`.
pub open spec fn is_first_extreme(d: Direction, s: Seq<int>, i: int) -> bool {
    is_first_extreme_in(d, s, 0, s.len() as int, i)
}

/// What an entry point returns on `s`: nothing exactly when `s` is empty,
/// otherwise the first position of the extremum.
pub open spec fn is_result(d: Direction, s: Seq<int>, r: Option<usize>) -> bool {
    match r {
        None => s.len() == 0,
        Some(i) => is_first_extreme(d, s, i as int),
    }
}

/// An element type with a native total order, seen through an integer key.
pub trait Element: Copy {
    spec fn key(&self) -> int;

    fn better_than(&self, other: &Self, d: Direction) -> (r: bool)
        ensures
            r == better(d, self.key(), other.key()),
    ;

    fn same_as(&self, other: &Self) -> (r: bool)
        ensures
            r == (self.key() == other.key()),
    ;
}

/// The keys of a sequence of elements, in order.
pub open spec fn keys<E: Element>(s: Seq<E>) -> Seq<int> {
    s.map_values(|e: E| e.key())
}

impl Element for i32 {
    open spec fn key(&self) -> int {
        *self as int
    }

    fn better_than(&self, other: &i32, d: Direction) -> (r: bool) {
        match d {
            Direction::Min => *self < *other,
            Direction::Max => *self > *other,
        }
    }

    fn same_as(&self, other: &i32) -> (r: bool) {
        *self == *other
    }
}

impl Element for i16 {
    open spec fn key(&self) -> int {
        *self as int
    }

    fn better_than(&self, other: &i16, d: Direction) -> (r: bool) {
        match d {
            Direction::Min => *self < *other,
            Direction::Max => *self > *other,
        }
    }

    fn same_as(&self, other: &i16) -> (r: bool) {
        *self == *other
    }
}

impl Element for u16 {
    open spec fn key(&self) -> int {
        *self as int
    }

    fn better_than(&self, other: &u16, d: Direction) -> (r: bool) {
        match d {
            Direction::Min => *self < *other,
            Direction::Max => *self > *other,
        }
    }

    fn same_as(&self, other: &u16) -> (r: bool) {
        *self == *other
    }
}

impl Element for u8 {
    open spec fn key(&self) -> int {
        *self as int
    }

    fn better_than(&self, other: &u8, d: Direction) -> (r: bool) {
        match d {
            Direction::Min => *self < *other,
            Direction::Max => *self > *other,
        }
    }

    fn same_as(&self, other: &u8) -> (r: bool) {
        *self == *other
    }
}

impl Element for usize {
    open spec fn key(&self) -> int {
        *self as int
    }

    fn better_than(&self, other: &usize, d: Direction) -> (r: bool) {
        match d {
            Direction::Min => *self < *other,
            Direction::Max => *self > *other,
        }
    }

    fn same_as(&self, other: &usize) -> (r: bool) {
        *self == *other
    }
}

} // verus!
