//! The evaluation of symbols against an input.
//!
//! A symbol is evaluated at a position of the input, within a whole span
//! beyond whose end nothing is read. A terminal or a metasymbol gives a leaf.
//! A variable is expanded by its rule: the two symbols of the first
//! alternative are evaluated one after the other, and where either fails, the
//! symbol of the second alternative is evaluated at the position at which the
//! variable was entered. The first alternative that succeeds is the result;
//! nothing of a failed alternative is kept.
//!
//! The expansion of a variable uses up one level of depth for the symbols of
//! its rule. Where no level is left, the evaluation ends with
//! [`ParseError::DepthExceeded`], which no alternative recovers from: a
//! result other than that one is the same at every greater depth.
use crate::cst::{outcome_view, Tree, CST};
use crate::error::ParseError;
use crate::position::{Position, Unit};
use crate::rules::{Grammar, RightRuleKind, Rules};
use crate::span::Span;
use crate::symbols::{Metasymbol, Terminal, TerminalSymbol, Variable};
use vstd::prelude::*;

verus! {

/// What the evaluation of `metasymbol` at `pos` gives, where the whole span
/// ends at `hi`.
pub open spec fn spec_eval_metasymbol<T, V>(metasymbol: Metasymbol, pos: nat, hi: nat) -> Result<
    Tree<T, V>,
    ParseError,
> {
    match metasymbol {
        Metasymbol::Epsilon => Ok(Tree::leaf(TerminalSymbol::M(metasymbol), pos, 0)),
        Metasymbol::Failure => Err(ParseError::TerminalMismatch),
        Metasymbol::Any(n) => if pos + n <= hi {
            Ok(Tree::leaf(TerminalSymbol::M(metasymbol), pos, n as nat))
        } else {
            Err(ParseError::OutOfBounds)
        },
        Metasymbol::All => Ok(
            Tree::leaf(
                TerminalSymbol::M(metasymbol),
                pos,
                if pos <= hi {
                    (hi - pos) as nat
                } else {
                    0
                },
            ),
        ),
        Metasymbol::Omit => Ok(Tree::leaf(TerminalSymbol::M(metasymbol), pos, 0)),
    }
}

/// What the evaluation of `symbol` at `pos` gives, with `depth` levels left
/// for the expansion of variables.
pub open spec fn spec_eval_symbol<I: ?Sized, T: Terminal<I>, V: Variable>(
    rules: Grammar<T, V>,
    input: &I,
    symbol: RightRuleKind<T, V>,
    pos: nat,
    hi: nat,
    depth: nat,
) -> Result<Tree<T, V>, ParseError>
    decreases depth, 1nat,
{
    match symbol {
        RightRuleKind::T(t) => match t.spec_match(input, pos, hi) {
            Some(len) => Ok(Tree::leaf(TerminalSymbol::Original(t), pos, len)),
            None => Err(ParseError::TerminalMismatch),
        },
        RightRuleKind::V(v) => spec_eval_variable(rules, input, v, pos, hi, depth),
        RightRuleKind::Epsilon => spec_eval_metasymbol(Metasymbol::Epsilon, pos, hi),
        RightRuleKind::Failure => spec_eval_metasymbol(Metasymbol::Failure, pos, hi),
        RightRuleKind::Any(n) => spec_eval_metasymbol(Metasymbol::Any(n), pos, hi),
        RightRuleKind::All => spec_eval_metasymbol(Metasymbol::All, pos, hi),
        RightRuleKind::Omit => spec_eval_metasymbol(Metasymbol::Omit, pos, hi),
    }
}

/// What the first alternative `first.0 first.1` gives at `pos`: the tree of
/// the left symbol, and the tree of the right symbol evaluated where the left
/// one ended.
pub open spec fn spec_eval_first<I: ?Sized, T: Terminal<I>, V: Variable>(
    rules: Grammar<T, V>,
    input: &I,
    first: (RightRuleKind<T, V>, RightRuleKind<T, V>),
    pos: nat,
    hi: nat,
    depth: nat,
) -> Result<(Tree<T, V>, Tree<T, V>), ParseError>
    decreases depth, 2nat,
{
    match spec_eval_symbol(rules, input, first.0, pos, hi, depth) {
        Ok(left) => match spec_eval_symbol(rules, input, first.1, left.span.end(), hi, depth) {
            Ok(right) => Ok((left, right)),
            Err(e) => Err(e),
        },
        Err(e) => Err(e),
    }
}

/// What the expansion of `variable` at `pos` gives.
///
/// A variable without a rule gives [`ParseError::UndefinedVariable`]. With no
/// level of depth left the result is [`ParseError::DepthExceeded`], and so it
/// is where an alternative ends with that error. Otherwise the result is the
/// node of the first alternative where that one succeeds, else the node of
/// the second alternative where that one succeeds, else
/// [`ParseError::AllAlternativesFailed`].
pub open spec fn spec_eval_variable<I: ?Sized, T: Terminal<I>, V: Variable>(
    rules: Grammar<T, V>,
    input: &I,
    variable: V,
    pos: nat,
    hi: nat,
    depth: nat,
) -> Result<Tree<T, V>, ParseError>
    decreases depth, 0nat,
{
    if !rules.contains_key(variable.spec_key()) {
        Err(ParseError::UndefinedVariable)
    } else if depth == 0 {
        Err(ParseError::DepthExceeded)
    } else {
        let right_rule = rules[variable.spec_key()].right_rule;
        let inner = (depth - 1) as nat;
        match spec_eval_first(rules, input, right_rule.first, pos, hi, inner) {
            Ok((left, right)) => Ok(Tree::first(variable, left, right)),
            Err(ParseError::DepthExceeded) => Err(ParseError::DepthExceeded),
            Err(_) => match spec_eval_symbol(rules, input, right_rule.second, pos, hi, inner) {
                Ok(child) => Ok(Tree::second(variable, child)),
                Err(ParseError::DepthExceeded) => Err(ParseError::DepthExceeded),
                Err(_) => Err(ParseError::AllAlternativesFailed),
            },
        }
    }
}

/// What parsing gives: the expansion of the start variable at the start of
/// the whole span.
pub open spec fn spec_minimal_parse<I: ?Sized, T: Terminal<I>, V: Variable>(
    rules: Grammar<T, V>,
    input: &I,
    start_variable: V,
    all_of_the_span: Span<nat, nat>,
    max_depth: nat,
) -> Result<Tree<T, V>, ParseError> {
    spec_eval_variable(
        rules,
        input,
        start_variable,
        all_of_the_span.start,
        all_of_the_span.end(),
        max_depth,
    )
}

/// The tree of a metasymbol starts at the position, ends by the end of the
/// whole span, and is a leaf.
pub proof fn lemma_eval_metasymbol_span<T, V>(metasymbol: Metasymbol, pos: nat, hi: nat)
    requires
        pos <= hi,
    ensures
        spec_eval_metasymbol::<T, V>(metasymbol, pos, hi) matches Ok(tree) ==> {
            &&& tree.span.start == pos
            &&& tree.span.end() <= hi
            &&& tree.well_spanned()
        },
{
}

/// The tree of a symbol starts at the position at which the symbol was
/// evaluated and ends by the end of the whole span, and each of its internal
/// nodes covers exactly what its children cover.
pub proof fn lemma_eval_symbol_span<I: ?Sized, T: Terminal<I>, V: Variable>(
    rules: Grammar<T, V>,
    input: &I,
    symbol: RightRuleKind<T, V>,
    pos: nat,
    hi: nat,
    depth: nat,
)
    requires
        pos <= hi,
    ensures
        spec_eval_symbol(rules, input, symbol, pos, hi, depth) matches Ok(tree) ==> {
            &&& tree.span.start == pos
            &&& tree.span.end() <= hi
            &&& tree.well_spanned()
        },
    decreases depth, 1nat,
{
    match symbol {
        RightRuleKind::T(t) => {
            t.lemma_match_bounded(input, pos, hi);
        },
        RightRuleKind::V(v) => {
            lemma_eval_variable_span(rules, input, v, pos, hi, depth);
        },
        RightRuleKind::Epsilon => {
            lemma_eval_metasymbol_span::<T, V>(Metasymbol::Epsilon, pos, hi);
        },
        RightRuleKind::Failure => {},
        RightRuleKind::Any(n) => {
            lemma_eval_metasymbol_span::<T, V>(Metasymbol::Any(n), pos, hi);
        },
        RightRuleKind::All => {
            lemma_eval_metasymbol_span::<T, V>(Metasymbol::All, pos, hi);
        },
        RightRuleKind::Omit => {
            lemma_eval_metasymbol_span::<T, V>(Metasymbol::Omit, pos, hi);
        },
    }
}

/// The trees of a first alternative lie one after the other: the left one
/// starts at the position, the right one starts where the left one ends and
/// ends by the end of the whole span.
pub proof fn lemma_eval_first_span<I: ?Sized, T: Terminal<I>, V: Variable>(
    rules: Grammar<T, V>,
    input: &I,
    first: (RightRuleKind<T, V>, RightRuleKind<T, V>),
    pos: nat,
    hi: nat,
    depth: nat,
)
    requires
        pos <= hi,
    ensures
        spec_eval_first(rules, input, first, pos, hi, depth) matches Ok((left, right)) ==> {
            &&& left.span.start == pos
            &&& left.span.end() == right.span.start
            &&& right.span.end() <= hi
            &&& left.well_spanned()
            &&& right.well_spanned()
        },
    decreases depth, 2nat,
{
    lemma_eval_symbol_span(rules, input, first.0, pos, hi, depth);
    if let Ok(left) = spec_eval_symbol(rules, input, first.0, pos, hi, depth) {
        lemma_eval_symbol_span(rules, input, first.1, left.span.end(), hi, depth);
    }
}

/// The tree of a variable starts at the position at which the variable was
/// expanded and ends by the end of the whole span, and each of its internal
/// nodes covers exactly what its children cover.
pub proof fn lemma_eval_variable_span<I: ?Sized, T: Terminal<I>, V: Variable>(
    rules: Grammar<T, V>,
    input: &I,
    variable: V,
    pos: nat,
    hi: nat,
    depth: nat,
)
    requires
        pos <= hi,
    ensures
        spec_eval_variable(rules, input, variable, pos, hi, depth) matches Ok(tree) ==> {
            &&& tree.span.start == pos
            &&& tree.span.end() <= hi
            &&& tree.well_spanned()
        },
    decreases depth, 0nat,
{
    if rules.contains_key(variable.spec_key()) && depth > 0 {
        let right_rule = rules[variable.spec_key()].right_rule;
        let inner = (depth - 1) as nat;
        lemma_eval_first_span(rules, input, right_rule.first, pos, hi, inner);
        lemma_eval_symbol_span(rules, input, right_rule.second, pos, hi, inner);
    }
}

/// Evaluates `metasymbol` at `pos`.
///
/// `Epsilon` and `Omit` give an empty leaf at `pos`. `Failure` gives
/// [`ParseError::TerminalMismatch`]. `Any(n)` gives a leaf of `n` units where
/// these end by the end of the whole span, and [`ParseError::OutOfBounds`]
/// where they do not. `All` gives a leaf of the units from `pos` to the end of
/// the whole span.
pub fn eval_metasymbol<T, V, S: Position, L: Unit>(
    metasymbol: Metasymbol,
    pos: S,
    all_of_the_span: &Span<S, L>,
) -> (r: Result<CST<T, V, S, L>, ParseError>)
    requires
        all_of_the_span.well_formed(),
        all_of_the_span.start.count() <= pos.count() <= all_of_the_span@.end(),
    ensures
        outcome_view(r) == spec_eval_metasymbol::<T, V>(
            metasymbol,
            pos.count(),
            all_of_the_span@.end(),
        ),
{
    proof {
        all_of_the_span.len.lemma_count_bounded();
    }
    match metasymbol {
        Metasymbol::Epsilon => Ok(CST::leaf_at(TerminalSymbol::M(metasymbol), pos, 0)),
        Metasymbol::Failure => Err(ParseError::TerminalMismatch),
        Metasymbol::Any(n) => {
            let left: u64 = all_of_the_span.hi().to_u64() - pos.to_u64();
            if n as u64 <= left {
                Ok(CST::leaf_at(TerminalSymbol::M(metasymbol), pos, n as u64))
            } else {
                Err(ParseError::OutOfBounds)
            }
        },
        Metasymbol::All => {
            let left: u64 = all_of_the_span.hi().to_u64() - pos.to_u64();
            Ok(CST::leaf_at(TerminalSymbol::M(metasymbol), pos, left))
        },
        Metasymbol::Omit => Ok(CST::leaf_at(TerminalSymbol::M(metasymbol), pos, 0)),
    }
}

/// Evaluates `symbol` at `pos`, with `depth` levels left for the expansion
/// of variables.
pub fn eval_symbol<I: ?Sized, T: Terminal<I>, V: Variable, S: Position, L: Unit>(
    input: &I,
    rules: &Rules<T, V>,
    symbol: &RightRuleKind<T, V>,
    pos: S,
    all_of_the_span: &Span<S, L>,
    depth: usize,
) -> (r: Result<CST<T, V, S, L>, ParseError>)
    requires
        all_of_the_span.well_formed(),
        all_of_the_span.start.count() <= pos.count() <= all_of_the_span@.end(),
    ensures
        outcome_view(r) == spec_eval_symbol(
            rules@,
            input,
            *symbol,
            pos.count(),
            all_of_the_span@.end(),
            depth as nat,
        ),
    decreases depth, 1nat,
{
    match symbol {
        RightRuleKind::T(t) => t.eval(input, pos, all_of_the_span),
        RightRuleKind::V(v) => eval_variable(input, rules, v, pos, all_of_the_span, depth),
        RightRuleKind::Epsilon => eval_metasymbol(Metasymbol::Epsilon, pos, all_of_the_span),
        RightRuleKind::Failure => eval_metasymbol(Metasymbol::Failure, pos, all_of_the_span),
        RightRuleKind::Any(n) => eval_metasymbol(Metasymbol::Any(*n), pos, all_of_the_span),
        RightRuleKind::All => eval_metasymbol(Metasymbol::All, pos, all_of_the_span),
        RightRuleKind::Omit => eval_metasymbol(Metasymbol::Omit, pos, all_of_the_span),
    }
}

/// The trees of a first alternative, as natural-number trees.
pub open spec fn pair_view<T, V, S: Unit, L: Unit>(
    r: Result<(CST<T, V, S, L>, CST<T, V, S, L>), ParseError>,
) -> Result<(Tree<T, V>, Tree<T, V>), ParseError> {
    match r {
        Ok((left, right)) => Ok((left@, right@)),
        Err(e) => Err(e),
    }
}

/// Evaluates the first alternative `first.0 first.1` at `pos`: the left
/// symbol at `pos`, then the right symbol where the left one ended.
pub fn eval_first<I: ?Sized, T: Terminal<I>, V: Variable, S: Position, L: Unit>(
    input: &I,
    rules: &Rules<T, V>,
    first: &(RightRuleKind<T, V>, RightRuleKind<T, V>),
    pos: S,
    all_of_the_span: &Span<S, L>,
    depth: usize,
) -> (r: Result<(CST<T, V, S, L>, CST<T, V, S, L>), ParseError>)
    requires
        all_of_the_span.well_formed(),
        all_of_the_span.start.count() <= pos.count() <= all_of_the_span@.end(),
    ensures
        pair_view(r) == spec_eval_first(
            rules@,
            input,
            *first,
            pos.count(),
            all_of_the_span@.end(),
            depth as nat,
        ),
    decreases depth, 2nat,
{
    let left = match eval_symbol(input, rules, &first.0, pos, all_of_the_span, depth) {
        Ok(left) => left,
        Err(e) => {
            return Err(e);
        },
    };
    proof {
        lemma_eval_symbol_span(
            rules@,
            input,
            first.0,
            pos.count(),
            all_of_the_span@.end(),
            depth as nat,
        );
    }
    let next = left.span.hi();
    match eval_symbol(input, rules, &first.1, next, all_of_the_span, depth) {
        Ok(right) => Ok((left, right)),
        Err(e) => Err(e),
    }
}

/// Expands `variable` at `pos` by its rule, with `depth` levels left: the
/// first alternative, and where that one fails, the second alternative at
/// `pos` again.
pub fn eval_variable<I: ?Sized, T: Terminal<I>, V: Variable, S: Position, L: Unit>(
    input: &I,
    rules: &Rules<T, V>,
    variable: &V,
    pos: S,
    all_of_the_span: &Span<S, L>,
    depth: usize,
) -> (r: Result<CST<T, V, S, L>, ParseError>)
    requires
        all_of_the_span.well_formed(),
        all_of_the_span.start.count() <= pos.count() <= all_of_the_span@.end(),
    ensures
        outcome_view(r) == spec_eval_variable(
            rules@,
            input,
            *variable,
            pos.count(),
            all_of_the_span@.end(),
            depth as nat,
        ),
    decreases depth, 0nat,
{
    let rule = match rules.get(variable) {
        Some(rule) => rule,
        None => {
            return Err(ParseError::UndefinedVariable);
        },
    };
    if depth == 0 {
        return Err(ParseError::DepthExceeded);
    }
    let inner: usize = depth - 1;
    match eval_first(input, rules, &rule.right_rule.first, pos, all_of_the_span, inner) {
        Ok((left, right)) => {
            proof {
                lemma_eval_first_span(
                    rules@,
                    input,
                    rule.right_rule.first,
                    pos.count(),
                    all_of_the_span@.end(),
                    inner as nat,
                );
                all_of_the_span.len.lemma_count_bounded();
            }
            Ok(CST::first_of(*variable, left, right))
        },
        Err(ParseError::DepthExceeded) => Err(ParseError::DepthExceeded),
        Err(_) => match eval_symbol(
            input,
            rules,
            &rule.right_rule.second,
            pos,
            all_of_the_span,
            inner,
        ) {
            Ok(child) => Ok(CST::second_of(*variable, child)),
            Err(ParseError::DepthExceeded) => Err(ParseError::DepthExceeded),
            Err(_) => Err(ParseError::AllAlternativesFailed),
        },
    }
}

/// Parses the input from the start of `all_of_the_span` as `start_variable`,
/// expanding variables at most `max_depth` deep.
///
/// The parse is minimal: it succeeds as soon as the start variable matches a
/// prefix of the whole span, and the tree covers exactly that prefix. A
/// caller that wants all of the input consumed compares the end of the
/// tree's span with the end of the whole span.
pub fn minimal_parse<I: ?Sized, T: Terminal<I>, V: Variable, S: Position, L: Unit>(
    input: &I,
    rules: &Rules<T, V>,
    start_variable: &V,
    all_of_the_span: Span<S, L>,
    max_depth: usize,
) -> (r: Result<CST<T, V, S, L>, ParseError>)
    requires
        all_of_the_span.well_formed(),
    ensures
        outcome_view(r) == spec_minimal_parse(
            rules@,
            input,
            *start_variable,
            all_of_the_span@,
            max_depth as nat,
        ),
        r matches Ok(cst) ==> {
            &&& cst.span.start == all_of_the_span.start
            &&& cst@.span.end() <= all_of_the_span@.end()
            &&& cst.span.well_formed()
            &&& cst@.well_spanned()
        },
{
    let r = eval_variable(
        input,
        rules,
        start_variable,
        all_of_the_span.start,
        &all_of_the_span,
        max_depth,
    );
    proof {
        lemma_eval_variable_span(
            rules@,
            input,
            *start_variable,
            all_of_the_span@.start,
            all_of_the_span@.end(),
            max_depth as nat,
        );
        if let Ok(cst) = &r {
            cst.span.start.lemma_count_injective(&all_of_the_span.start);
        }
    }
    r
}

} // verus!
