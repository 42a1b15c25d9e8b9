//! Literal elements and slices as terminals of a slice of bytes.
use crate::cst::CST;
use crate::error::ParseError;
use crate::position::{Position, Unit};
use crate::span::Span;
use crate::symbols::terminal::{match_bytes, spec_match_bytes, Terminal};
use crate::symbols::TerminalSymbol;
use vstd::prelude::*;
use vstd::std_specs::convert::FromSpecImpl;

verus! {

/// A terminal that matches one element, or a run of elements, in an input
/// slice.
#[derive(Debug, PartialEq)]
pub enum SliceTerminal<'a, T> {
    Element(T),
    Slice(&'a [T]),
}

impl<'a, T: Copy> Clone for SliceTerminal<'a, T> {
    fn clone(&self) -> (terminal: Self)
        ensures
            terminal == *self,
    {
        *self
    }
}

impl<'a, T: Copy> Copy for SliceTerminal<'a, T> {

}

/// A terminal of a slice of bytes.
pub type U8SliceTerminal<'a> = SliceTerminal<'a, u8>;

impl<'a, T> From<&'a [T]> for SliceTerminal<'a, T> {
    fn from(value: &'a [T]) -> (terminal: Self) {
        Self::Slice(value)
    }
}

impl<'a, T> FromSpecImpl<&'a [T]> for SliceTerminal<'a, T> {
    open spec fn obeys_from_spec() -> bool {
        true
    }

    open spec fn from_spec(value: &'a [T]) -> Self {
        SliceTerminal::Slice(value)
    }
}

impl<'a> SliceTerminal<'a, u8> {
    /// The bytes that the terminal matches.
    pub open spec fn pattern(&self) -> Seq<u8> {
        match self {
            SliceTerminal::Element(e) => seq![*e],
            SliceTerminal::Slice(s) => s@,
        }
    }
}

impl<'a> Terminal<[u8]> for SliceTerminal<'a, u8> {
    /// The terminal matches where the bytes of the input at `pos` are those
    /// of its pattern, and end by `hi`.
    open spec fn spec_match(&self, input: &[u8], pos: nat, hi: nat) -> Option<nat> {
        spec_match_bytes(input@, self.pattern(), pos, hi)
    }

    proof fn lemma_match_bounded(&self, input: &[u8], pos: nat, hi: nat) {
    }

    fn eval<V, S: Position, L: Unit>(&self, input: &[u8], pos: S, all_of_the_span: &Span<S, L>) -> (r:
        Result<CST<Self, V, S, L>, ParseError>) {
        let hi = all_of_the_span.hi();
        let matched = match self {
            SliceTerminal::Element(e) => {
                let mut bytes: Vec<u8> = Vec::new();
                bytes.push(*e);
                assert(bytes@ =~= seq![*e]);
                match_bytes(input, bytes.as_slice(), pos.to_u64(), hi.to_u64())
            },
            SliceTerminal::Slice(s) => match_bytes(input, s, pos.to_u64(), hi.to_u64()),
        };
        match matched {
            Some(len) => {
                proof {
                    all_of_the_span.len.lemma_count_bounded();
                }
                Ok(CST::leaf_at(TerminalSymbol::Original(*self), pos, len))
            },
            None => Err(ParseError::TerminalMismatch),
        }
    }
}

} // verus!
