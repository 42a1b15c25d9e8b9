//! A grammar-driven parsing engine.
//!
//! A grammar is a table of rules, one for each variable. The right-hand side
//! of a rule is an ordered choice between a sequence of two symbols and a
//! single fallback symbol. Parsing an input under such a table builds a
//! concrete syntax tree that records, for every matched symbol, what it is
//! and which range of the input it covers.
//!
//! The engine is generic over the terminal alphabet, the variable alphabet,
//! the input, and the types that hold positions and lengths. Its contracts
//! are stated over trees whose spans are natural numbers: the view of a
//! [`cst::CST`].
pub mod cst;
pub mod error;
pub mod laws;
pub mod output;
pub mod parse;
pub mod position;
pub mod rules;
pub mod sequence;
pub mod span;
pub mod symbols;
