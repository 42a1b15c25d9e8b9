//! Half-open ranges of an input.
use crate::position::{BytePos, Unit};
use vstd::prelude::*;

verus! {

/// The range of `len` units that begins at `start`.
///
/// A span of length zero is the range of a match that consumed nothing.
#[derive(Debug, PartialEq, Eq, Hash)]
pub struct Span<S, L> {
    pub start: S,
    pub len: L,
}

impl<S: Copy, L: Copy> Clone for Span<S, L> {
    fn clone(&self) -> (span: Self)
        ensures
            span == *self,
    {
        *self
    }
}

impl<S: Copy, L: Copy> Copy for Span<S, L> {

}

/// A span given by where it starts and how long it is.
pub type StartAndLenSpan<S, L> = Span<S, L>;

/// A span of bytes.
pub type ByteSpan = Span<BytePos, u16>;

impl<S, L> Span<S, L> {
    /// The span of `len` units that begins at `start`.
    pub fn from_start_len(start: S, len: L) -> (span: Self)
        ensures
            span.start == start,
            span.len == len,
    {
        Span { start, len }
    }
}

impl Span<nat, nat> {
    /// The coordinate at which the range ends.
    pub open spec fn end(self) -> nat {
        self.start + self.len
    }
}

impl<S: Unit, L: Unit> View for Span<S, L> {
    type V = Span<nat, nat>;

    open spec fn view(&self) -> Span<nat, nat> {
        Span { start: self.start.count(), len: self.len.count() }
    }
}

impl<S: Unit, L: Unit> Span<S, L> {
    /// The end of the range can be held by the position type.
    pub open spec fn well_formed(&self) -> bool {
        self@.end() <= S::count_limit()
    }

    /// Tells whether the end of the range can be held by the position type.
    pub fn is_well_formed(&self) -> (b: bool)
        ensures
            b == self.well_formed(),
    {
        proof {
            self.start.lemma_count_bounded();
            self.len.lemma_count_bounded();
        }
        let start: u64 = self.start.to_u64();
        let len: u64 = self.len.to_u64();
        if len <= u64::MAX - start {
            S::from_u64(start + len).is_some()
        } else {
            false
        }
    }

    /// The coordinate at which the range ends. It never lies before the
    /// start, and is the start itself where the span is empty.
    pub fn hi(&self) -> (hi: S)
        requires
            self.well_formed(),
        ensures
            hi.count() == self@.end(),
            self.start.count() <= hi.count(),
            self.len.count() == 0 ==> hi == self.start,
    {
        proof {
            self.start.lemma_count_bounded();
            self.len.lemma_count_bounded();
        }
        let hi = S::from_u64(self.start.to_u64() + self.len.to_u64()).unwrap();
        proof {
            if self.len.count() == 0 {
                hi.lemma_count_injective(&self.start);
            }
        }
        hi
    }

    /// The length of the range.
    pub fn len(&self) -> (len: L)
        ensures
            len == self.len,
    {
        self.len
    }
}

} // verus!
