//! Why a parse failed.
use vstd::prelude::*;

verus! {

/// The reason for which the evaluation of a symbol failed.
#[derive(Clone, Copy, Debug, PartialEq, Eq, Hash, Structural)]
pub enum ParseError {
    /// A terminal did not match the input at the position.
    TerminalMismatch,
    /// A metasymbol would have consumed input beyond the end of the whole span.
    OutOfBounds,
    /// A variable that has no rule in the grammar table was to be expanded.
    UndefinedVariable,
    /// Both alternatives of a variable's rule failed.
    AllAlternativesFailed,
    /// Variables were nested deeper than the limit that the caller gave.
    DepthExceeded,
}

} // verus!
