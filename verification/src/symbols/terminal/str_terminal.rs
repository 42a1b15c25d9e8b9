//! Literal characters and strings as terminals of a text.
use crate::cst::CST;
use crate::error::ParseError;
use crate::position::{Position, Unit};
use crate::span::Span;
use crate::symbols::terminal::{match_bytes, spec_match_bytes, Terminal};
use crate::symbols::TerminalSymbol;
use vstd::prelude::*;
use vstd::std_specs::convert::FromSpecImpl;
use vstd::string::StringSliceAdditionalSpecFns;
use vstd::utf8::encode_scalar;

verus! {

/// A terminal that matches the UTF-8 encoding of one character, or of a
/// string, in an input text.
#[derive(Copy, Clone, Debug, PartialEq)]
pub enum StrTerminal<'a> {
    Char(char),
    Str(&'a str),
}

impl From<char> for StrTerminal<'_> {
    fn from(value: char) -> (terminal: Self) {
        Self::Char(value)
    }
}

impl FromSpecImpl<char> for StrTerminal<'_> {
    open spec fn obeys_from_spec() -> bool {
        true
    }

    open spec fn from_spec(value: char) -> Self {
        StrTerminal::Char(value)
    }
}

impl<'a> From<&'a str> for StrTerminal<'a> {
    fn from(value: &'a str) -> (terminal: Self) {
        Self::Str(value)
    }
}

impl<'a> FromSpecImpl<&'a str> for StrTerminal<'a> {
    open spec fn obeys_from_spec() -> bool {
        true
    }

    open spec fn from_spec(value: &'a str) -> Self {
        StrTerminal::Str(value)
    }
}

/// The UTF-8 encoding of `c`.
pub fn utf8_bytes(c: char) -> (bytes: Vec<u8>)
    ensures
        bytes@ == encode_scalar(c as u32),
{
    let scalar: u32 = c as u32;
    let mut bytes: Vec<u8> = Vec::new();
    assert(scalar & 0x7F < 256 && (scalar >> 6) & 0x1F < 256 && scalar & 0x3F < 256 && (scalar
        >> 12) & 0x0F < 256 && (scalar >> 6) & 0x3F < 256 && (scalar >> 18) & 0x7 < 256 && (scalar
        >> 12) & 0x3F < 256) by (bit_vector);
    if scalar <= 0x7F {
        bytes.push((scalar & 0x7F) as u8);
    } else if scalar <= 0x7FF {
        bytes.push(0xC0 | ((scalar >> 6) & 0x1F) as u8);
        bytes.push(0x80 | (scalar & 0x3F) as u8);
    } else if scalar <= 0xFFFF {
        bytes.push(0xE0 | ((scalar >> 12) & 0x0F) as u8);
        bytes.push(0x80 | ((scalar >> 6) & 0x3F) as u8);
        bytes.push(0x80 | (scalar & 0x3F) as u8);
    } else {
        bytes.push(0xF0 | ((scalar >> 18) & 0x7) as u8);
        bytes.push(0x80 | ((scalar >> 12) & 0x3F) as u8);
        bytes.push(0x80 | ((scalar >> 6) & 0x3F) as u8);
        bytes.push(0x80 | (scalar & 0x3F) as u8);
    }
    assert(bytes@ =~= encode_scalar(scalar));
    bytes
}

impl<'a> StrTerminal<'a> {
    /// The bytes that the terminal matches.
    pub open spec fn pattern(&self) -> Seq<u8> {
        match self {
            StrTerminal::Char(c) => encode_scalar(*c as u32),
            StrTerminal::Str(s) => s.spec_bytes(),
        }
    }
}

impl<'a> Terminal<str> for StrTerminal<'a> {
    /// The terminal matches where the bytes of the input at `pos` are those
    /// of its pattern, and end by `hi`.
    open spec fn spec_match(&self, input: &str, pos: nat, hi: nat) -> Option<nat> {
        spec_match_bytes(input.spec_bytes(), self.pattern(), pos, hi)
    }

    proof fn lemma_match_bounded(&self, input: &str, pos: nat, hi: nat) {
    }

    fn eval<V, S: Position, L: Unit>(&self, input: &str, pos: S, all_of_the_span: &Span<S, L>) -> (r:
        Result<CST<Self, V, S, L>, ParseError>) {
        let hi = all_of_the_span.hi();
        let matched = match self {
            StrTerminal::Char(c) => {
                let bytes = utf8_bytes(*c);
                match_bytes(input.as_bytes(), bytes.as_slice(), pos.to_u64(), hi.to_u64())
            },
            StrTerminal::Str(s) => {
                match_bytes(input.as_bytes(), s.as_bytes(), pos.to_u64(), hi.to_u64())
            },
        };
        match matched {
            Some(len) => {
                proof {
                    all_of_the_span.len.lemma_count_bounded();
                }
                Ok(CST::leaf_at(TerminalSymbol::Original(*self), pos, len))
            },
            None => Err(ParseError::TerminalMismatch),
        }
    }
}

} // verus!
