//! What a leaf of a syntax tree holds.
use crate::symbols::terminal::metasymbol::Metasymbol;
use vstd::prelude::*;

verus! {

/// A terminal symbol: one of the caller's alphabet, or a metasymbol.
#[derive(Debug, PartialEq, Eq, Hash)]
pub enum TerminalSymbol<T> {
    Original(T),
    M(Metasymbol),
}

impl<T: Copy> Clone for TerminalSymbol<T> {
    fn clone(&self) -> (symbol: Self)
        ensures
            symbol == *self,
    {
        *self
    }
}

impl<T: Copy> Copy for TerminalSymbol<T> {

}

impl<T> TerminalSymbol<T> {
    pub fn from_original(terminal: T) -> (symbol: Self)
        ensures
            symbol == TerminalSymbol::Original(terminal),
    {
        Self::Original(terminal)
    }

    pub fn from_m(metasymbol: Metasymbol) -> (symbol: Self)
        ensures
            symbol == TerminalSymbol::<T>::M(metasymbol),
    {
        Self::M(metasymbol)
    }
}

} // verus!
