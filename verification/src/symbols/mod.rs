//! The symbols of a grammar: terminals and variables.
use vstd::prelude::*;

pub mod terminal;

pub use terminal::metasymbol::Metasymbol;
pub use terminal::str_terminal::StrTerminal;
pub use terminal::terminal_symbol::TerminalSymbol;
pub use terminal::u8slice_terminal::{SliceTerminal, U8SliceTerminal};
pub use terminal::Terminal;

verus! {

/// A non-terminal of a grammar.
///
/// A variable is identified by its key: the grammar table holds one rule for
/// each key, and two variables with the same key stand for the same
/// non-terminal.
pub trait Variable: Copy + Sized {
    /// The key that identifies the variable.
    spec fn spec_key(&self) -> u64;

    /// The key that identifies the variable.
    fn key(&self) -> (key: u64)
        ensures
            key == self.spec_key(),
    ;
}

impl Variable for u8 {
    open spec fn spec_key(&self) -> u64 {
        *self as u64
    }

    fn key(&self) -> (key: u64) {
        *self as u64
    }
}

impl Variable for u16 {
    open spec fn spec_key(&self) -> u64 {
        *self as u64
    }

    fn key(&self) -> (key: u64) {
        *self as u64
    }
}

impl Variable for u32 {
    open spec fn spec_key(&self) -> u64 {
        *self as u64
    }

    fn key(&self) -> (key: u64) {
        *self as u64
    }
}

impl Variable for u64 {
    open spec fn spec_key(&self) -> u64 {
        *self
    }

    fn key(&self) -> (key: u64) {
        *self
    }
}

} // verus!
