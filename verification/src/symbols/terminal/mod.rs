//! Terminal symbols and how they are matched against an input.
use crate::cst::{outcome_view, Tree, CST};
use crate::error::ParseError;
use crate::position::{Position, Unit};
use crate::span::Span;
use crate::symbols::terminal::terminal_symbol::TerminalSymbol;
use vstd::prelude::*;

pub mod metasymbol;
pub mod str_terminal;
pub mod terminal_symbol;
pub mod u8slice_terminal;

verus! {

/// A terminal of the caller's alphabet, matched against inputs of type `I`.
///
/// Whether and how far a terminal matches is a function of the terminal, the
/// input, the position and the end of the whole span: [`Terminal::spec_match`].
pub trait Terminal<I: ?Sized>: Copy + Sized {
    /// The number of units that the terminal matches in `input` at `pos`,
    /// none of them at or after `hi`; `None` where it does not match.
    spec fn spec_match(&self, input: &I, pos: nat, hi: nat) -> Option<nat>;

    /// A match never extends beyond the end of the whole span.
    proof fn lemma_match_bounded(&self, input: &I, pos: nat, hi: nat)
        ensures
            self.spec_match(input, pos, hi) matches Some(len) ==> pos + len <= hi,
    ;

    /// Matches the terminal against `input` at `pos`. Where it matches, the
    /// result is a leaf that holds the terminal and spans what was matched;
    /// where it does not, the result is [`ParseError::TerminalMismatch`].
    fn eval<V, S: Position, L: Unit>(
        &self,
        input: &I,
        pos: S,
        all_of_the_span: &Span<S, L>,
    ) -> (r: Result<CST<Self, V, S, L>, ParseError>)
        requires
            all_of_the_span.well_formed(),
            all_of_the_span.start.count() <= pos.count() <= all_of_the_span@.end(),
        ensures
            outcome_view(r) == match self.spec_match(
                input,
                pos.count(),
                all_of_the_span@.end(),
            ) {
                Some(len) => Ok(Tree::<Self, V>::leaf(TerminalSymbol::Original(*self), pos.count(), len)),
                None => Err(ParseError::TerminalMismatch),
            },
    ;
}

/// The length of `pattern` where it stands in `bytes` at `pos` and ends by
/// `hi`; `None` where it does not.
pub open spec fn spec_match_bytes(bytes: Seq<u8>, pattern: Seq<u8>, pos: nat, hi: nat) -> Option<
    nat,
> {
    if pos + pattern.len() <= hi && pos + pattern.len() <= bytes.len() && bytes.subrange(
        pos as int,
        (pos + pattern.len()) as int,
    ) == pattern {
        Some(pattern.len())
    } else {
        None
    }
}

/// Compares `pattern` with the bytes of `bytes` at `pos`, reading none at or
/// after `hi`.
pub fn match_bytes(bytes: &[u8], pattern: &[u8], pos: u64, hi: u64) -> (len: Option<u64>)
    ensures
        match spec_match_bytes(bytes@, pattern@, pos as nat, hi as nat) {
            Some(n) => len == Some(n as u64) && n <= u64::MAX,
            None => len is None,
        },
{
    let n: usize = pattern.len();
    if n as u64 > hi || pos > hi - n as u64 {
        return None;
    }
    if n > bytes.len() || pos > (bytes.len() - n) as u64 {
        return None;
    }
    let start: usize = pos as usize;
    let mut i: usize = 0;
    while i < n
        invariant
            i <= n,
            n == pattern@.len(),
            start == pos,
            pos + n <= hi,
            start + n <= bytes.len(),
            forall|j: int| 0 <= j < i ==> bytes@[start + j] == pattern@[j],
        decreases n - i,
    {
        if bytes[start + i] != pattern[i] {
            assert(bytes@.subrange(start as int, start + n)[i as int] != pattern@[i as int]);
            return None;
        }
        i += 1;
    }
    assert(bytes@.subrange(start as int, start + n) =~= pattern@);
    Some(n as u64)
}

} // verus!
