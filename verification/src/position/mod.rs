//! Coordinates in an input and lengths of ranges of it.
use vstd::prelude::*;

pub mod byte_pos;

pub use byte_pos::BytePos;

verus! {

/// A type whose values count input units: a coordinate counts the units
/// before it, a length counts the units of a range.
///
/// Every number up to [`Unit::count_limit`] is held by exactly one value.
pub trait Unit: Copy + Sized {
    /// The number that the value stands for.
    spec fn count(&self) -> nat;

    /// The largest number that the type can hold.
    spec fn count_limit() -> nat;

    /// No value exceeds the limit, and the limit fits in a `u64`.
    proof fn lemma_count_bounded(&self)
        ensures
            self.count() <= Self::count_limit(),
            Self::count_limit() <= u64::MAX,
    ;

    /// Two values that stand for the same number are the same value.
    proof fn lemma_count_injective(&self, other: &Self)
        requires
            self.count() == other.count(),
        ensures
            self == other,
    ;

    /// The number that the value stands for.
    fn to_u64(&self) -> (n: u64)
        ensures
            n == self.count(),
    ;

    /// The value that stands for `n`, where the type can hold it.
    fn from_u64(n: u64) -> (unit: Option<Self>)
        ensures
            n <= Self::count_limit() ==> unit is Some && unit.unwrap().count() == n,
            n > Self::count_limit() ==> unit is None,
    ;
}

/// A coordinate in an input, which can be advanced by one unit.
pub trait Position: Unit {
    /// The coordinate one unit further.
    fn with_one_added(&self) -> (next: Self)
        requires
            self.count() < Self::count_limit(),
        ensures
            next.count() == self.count() + 1,
    ;
}

impl Unit for u16 {
    open spec fn count(&self) -> nat {
        *self as nat
    }

    open spec fn count_limit() -> nat {
        u16::MAX as nat
    }

    proof fn lemma_count_bounded(&self) {
    }

    proof fn lemma_count_injective(&self, other: &Self) {
    }

    fn to_u64(&self) -> (n: u64) {
        *self as u64
    }

    fn from_u64(n: u64) -> (unit: Option<Self>) {
        if n <= u16::MAX as u64 {
            Some(n as u16)
        } else {
            None
        }
    }
}

impl Unit for u32 {
    open spec fn count(&self) -> nat {
        *self as nat
    }

    open spec fn count_limit() -> nat {
        u32::MAX as nat
    }

    proof fn lemma_count_bounded(&self) {
    }

    proof fn lemma_count_injective(&self, other: &Self) {
    }

    fn to_u64(&self) -> (n: u64) {
        *self as u64
    }

    fn from_u64(n: u64) -> (unit: Option<Self>) {
        if n <= u32::MAX as u64 {
            Some(n as u32)
        } else {
            None
        }
    }
}

impl Unit for u64 {
    open spec fn count(&self) -> nat {
        *self as nat
    }

    open spec fn count_limit() -> nat {
        u64::MAX as nat
    }

    proof fn lemma_count_bounded(&self) {
    }

    proof fn lemma_count_injective(&self, other: &Self) {
    }

    fn to_u64(&self) -> (n: u64) {
        *self
    }

    fn from_u64(n: u64) -> (unit: Option<Self>) {
        Some(n)
    }
}

impl Unit for usize {
    open spec fn count(&self) -> nat {
        *self as nat
    }

    open spec fn count_limit() -> nat {
        usize::MAX as nat
    }

    proof fn lemma_count_bounded(&self) {
    }

    proof fn lemma_count_injective(&self, other: &Self) {
    }

    fn to_u64(&self) -> (n: u64) {
        *self as u64
    }

    fn from_u64(n: u64) -> (unit: Option<Self>) {
        if n <= usize::MAX as u64 {
            Some(n as usize)
        } else {
            None
        }
    }
}

impl Position for u32 {
    fn with_one_added(&self) -> (next: Self) {
        *self + 1
    }
}

impl Position for u64 {
    fn with_one_added(&self) -> (next: Self) {
        *self + 1
    }
}

impl Position for usize {
    fn with_one_added(&self) -> (next: Self) {
        *self + 1
    }
}

} // verus!
