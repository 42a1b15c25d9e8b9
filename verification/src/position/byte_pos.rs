//! Byte offsets.
use crate::position::{Position, Unit};
use std::ops::{Add, Sub};
use vstd::prelude::*;
use vstd::std_specs::convert::FromSpecImpl;
use vstd::std_specs::ops::{AddSpecImpl, SubSpecImpl};

verus! {

/// An offset into an input, in bytes.
#[derive(Clone, Copy, Debug, Default, Eq, Hash, Ord, PartialEq, PartialOrd, Structural)]
pub struct BytePos(pub u32);

impl From<BytePos> for u32 {
    fn from(byte_pos: BytePos) -> (offset: Self) {
        byte_pos.0
    }
}

impl FromSpecImpl<BytePos> for u32 {
    open spec fn obeys_from_spec() -> bool {
        true
    }

    open spec fn from_spec(byte_pos: BytePos) -> Self {
        byte_pos.0
    }
}

impl From<u32> for BytePos {
    fn from(value: u32) -> (byte_pos: Self) {
        BytePos(value)
    }
}

impl FromSpecImpl<u32> for BytePos {
    open spec fn obeys_from_spec() -> bool {
        true
    }

    open spec fn from_spec(value: u32) -> Self {
        BytePos(value)
    }
}

impl Add for BytePos {
    type Output = Self;

    /// The offset `rhs` bytes after `self`. The sum must fit.
    fn add(self, rhs: Self) -> (sum: Self) {
        BytePos(self.0 + rhs.0)
    }
}

impl AddSpecImpl for BytePos {
    open spec fn obeys_add_spec() -> bool {
        true
    }

    open spec fn add_req(self, rhs: Self) -> bool {
        self.0 + rhs.0 <= u32::MAX
    }

    open spec fn add_spec(self, rhs: Self) -> Self {
        BytePos((self.0 + rhs.0) as u32)
    }
}

impl Sub for BytePos {
    type Output = Self;

    /// The distance from `rhs` to `self`, which must not lie before `rhs`.
    fn sub(self, rhs: Self) -> (difference: Self) {
        BytePos(self.0 - rhs.0)
    }
}

impl SubSpecImpl for BytePos {
    open spec fn obeys_sub_spec() -> bool {
        true
    }

    open spec fn sub_req(self, rhs: Self) -> bool {
        rhs.0 <= self.0
    }

    open spec fn sub_spec(self, rhs: Self) -> Self {
        BytePos((self.0 - rhs.0) as u32)
    }
}

impl Unit for BytePos {
    open spec fn count(&self) -> nat {
        self.0 as nat
    }

    open spec fn count_limit() -> nat {
        u32::MAX as nat
    }

    proof fn lemma_count_bounded(&self) {
    }

    proof fn lemma_count_injective(&self, other: &Self) {
    }

    fn to_u64(&self) -> (n: u64) {
        self.0 as u64
    }

    fn from_u64(n: u64) -> (unit: Option<Self>) {
        if n <= u32::MAX as u64 {
            Some(BytePos(n as u32))
        } else {
            None
        }
    }
}

impl Position for BytePos {
    fn with_one_added(&self) -> (next: Self) {
        *self + BytePos(1)
    }
}

} // verus!
