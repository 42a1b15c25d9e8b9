//! Symbols that match by position alone.
use vstd::prelude::*;

verus! {

/// A terminal that is matched without looking at the content of the input.
#[derive(Clone, Copy, Debug, Eq, Hash, Ord, PartialEq, PartialOrd, Structural)]
pub enum Metasymbol {
    /// Matches the empty range, always.
    Epsilon,
    /// Never matches.
    Failure,
    /// Matches exactly this many units, whatever they hold.
    Any(usize),
    /// Matches every unit up to the end of the whole span.
    All,
    /// Matches the empty range, always; the leaf carries no value.
    Omit,
}

impl Metasymbol {
    pub fn epsilon() -> (m: Self)
        ensures
            m == Metasymbol::Epsilon,
    {
        Self::Epsilon
    }

    pub fn failed() -> (m: Self)
        ensures
            m == Metasymbol::Failure,
    {
        Self::Failure
    }

    pub fn any(n: usize) -> (m: Self)
        ensures
            m == Metasymbol::Any(n),
    {
        Self::Any(n)
    }

    pub fn all() -> (m: Self)
        ensures
            m == Metasymbol::All,
    {
        Self::All
    }

    pub fn omit() -> (m: Self)
        ensures
            m == Metasymbol::Omit,
    {
        Self::Omit
    }
}

} // verus!
