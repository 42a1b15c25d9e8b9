//! What holds of every evaluation.
use crate::cst::{lemma_view_injective, lemma_well_spanned_nodes, outcome_view, Tree, CST};
use crate::error::ParseError;
use crate::parse::{
    lemma_eval_variable_span, spec_eval_first, spec_eval_metasymbol, spec_eval_symbol,
    spec_eval_variable, spec_minimal_parse,
};
use crate::position::Unit;
use crate::rules::{is_closed, Grammar, RightRuleKind};
use crate::span::Span;
use crate::symbols::{Metasymbol, Terminal, TerminalSymbol, Variable};
use vstd::prelude::*;

verus! {

/// A span never ends before its start, and the empty span at a position is
/// well formed and ends at that position.
pub proof fn lemma_span_start_before_end<S: Unit, L: Unit>(span: Span<S, L>, zero: L)
    requires
        zero.count() == 0,
    ensures
        span@.start <= span@.end(),
        (Span { start: span.start, len: zero }).well_formed(),
        (Span { start: span.start, len: zero })@.end() == span.start.count(),
{
    span.start.lemma_count_bounded();
}

/// A parsed tree starts at the start of the whole span and ends by its end,
/// and each of its internal nodes covers exactly what its children cover.
pub proof fn lemma_parse_well_spanned<I: ?Sized, T: Terminal<I>, V: Variable>(
    rules: Grammar<T, V>,
    input: &I,
    start_variable: V,
    all_of_the_span: Span<nat, nat>,
    max_depth: nat,
)
    ensures
        spec_minimal_parse(rules, input, start_variable, all_of_the_span, max_depth) matches Ok(
            tree,
        ) ==> {
            &&& tree.span.start == all_of_the_span.start
            &&& tree.span.end() <= all_of_the_span.end()
            &&& tree.well_spanned()
        },
{
    lemma_eval_variable_span(
        rules,
        input,
        start_variable,
        all_of_the_span.start,
        all_of_the_span.end(),
        max_depth,
    );
}

/// Every internal node of a parsed tree that came from a first alternative
/// spans from the start of its left child to the end of its right child, and
/// the right child starts where the left one ends.
pub proof fn lemma_first_node_span<I: ?Sized, T: Terminal<I>, V: Variable>(
    rules: Grammar<T, V>,
    input: &I,
    start_variable: V,
    all_of_the_span: Span<nat, nat>,
    max_depth: nat,
    node: Tree<T, V>,
    left: Tree<T, V>,
    right: Tree<T, V>,
)
    requires
        spec_minimal_parse(rules, input, start_variable, all_of_the_span, max_depth) matches Ok(
            tree,
        ) && tree.has_node(node),
        node.is_first(left, right),
    ensures
        node.span.start == left.span.start,
        node.span.end() == right.span.end(),
        left.span.end() == right.span.start,
{
    lemma_parse_well_spanned(rules, input, start_variable, all_of_the_span, max_depth);
    let tree = spec_minimal_parse(rules, input, start_variable, all_of_the_span, max_depth)->Ok_0;
    lemma_well_spanned_nodes(tree, node);
}

/// Every internal node of a parsed tree that came from a second alternative
/// has the span of its child.
pub proof fn lemma_second_node_span<I: ?Sized, T: Terminal<I>, V: Variable>(
    rules: Grammar<T, V>,
    input: &I,
    start_variable: V,
    all_of_the_span: Span<nat, nat>,
    max_depth: nat,
    node: Tree<T, V>,
    child: Tree<T, V>,
)
    requires
        spec_minimal_parse(rules, input, start_variable, all_of_the_span, max_depth) matches Ok(
            tree,
        ) && tree.has_node(node),
        node.is_second(child),
    ensures
        node.span == child.span,
{
    lemma_parse_well_spanned(rules, input, start_variable, all_of_the_span, max_depth);
    let tree = spec_minimal_parse(rules, input, start_variable, all_of_the_span, max_depth)->Ok_0;
    lemma_well_spanned_nodes(tree, node);
}

/// `Any(n)` succeeds exactly where `n` units from the position end by the end
/// of the whole span. It then gives a leaf of these `n` units, and otherwise
/// the error `OutOfBounds`.
pub proof fn lemma_any_in_bounds<T, V>(n: usize, pos: nat, hi: nat)
    ensures
        spec_eval_metasymbol::<T, V>(Metasymbol::Any(n), pos, hi) is Ok <==> pos + n <= hi,
        pos + n <= hi ==> spec_eval_metasymbol::<T, V>(Metasymbol::Any(n), pos, hi) == Ok::<
            Tree<T, V>,
            ParseError,
        >(Tree::leaf(TerminalSymbol::M(Metasymbol::Any(n)), pos, n as nat)),
        pos + n > hi ==> spec_eval_metasymbol::<T, V>(Metasymbol::Any(n), pos, hi) == Err::<
            Tree<T, V>,
            ParseError,
        >(ParseError::OutOfBounds),
{
}

/// A variable that has no rule in the grammar gives the error
/// `UndefinedVariable`, at every position and depth, also where it is the
/// symbol of a rule. A terminal never gives that error.
pub proof fn lemma_undefined_variable<I: ?Sized, T: Terminal<I>, V: Variable>(
    rules: Grammar<T, V>,
    input: &I,
    variable: V,
    terminal: T,
    pos: nat,
    hi: nat,
    depth: nat,
)
    requires
        !rules.contains_key(variable.spec_key()),
    ensures
        spec_eval_variable(rules, input, variable, pos, hi, depth) == Err::<
            Tree<T, V>,
            ParseError,
        >(ParseError::UndefinedVariable),
        spec_eval_symbol(rules, input, RightRuleKind::V(variable), pos, hi, depth) == Err::<
            Tree<T, V>,
            ParseError,
        >(ParseError::UndefinedVariable),
        spec_eval_symbol(rules, input, RightRuleKind::T(terminal), pos, hi, depth) != Err::<
            Tree<T, V>,
            ParseError,
        >(ParseError::UndefinedVariable),
{
}

/// In a closed grammar no symbol of a rule gives the error
/// `UndefinedVariable`: that error can only come from the symbol with which
/// the evaluation began.
pub proof fn lemma_closed_defines_all<I: ?Sized, T: Terminal<I>, V: Variable>(
    rules: Grammar<T, V>,
    input: &I,
    key: u64,
    pos: nat,
    hi: nat,
    depth: nat,
)
    requires
        is_closed(rules),
        rules.contains_key(key),
    ensures
        spec_eval_symbol(rules, input, rules[key].right_rule.first.0, pos, hi, depth) != Err::<
            Tree<T, V>,
            ParseError,
        >(ParseError::UndefinedVariable),
        spec_eval_symbol(rules, input, rules[key].right_rule.first.1, pos, hi, depth) != Err::<
            Tree<T, V>,
            ParseError,
        >(ParseError::UndefinedVariable),
        spec_eval_symbol(rules, input, rules[key].right_rule.second, pos, hi, depth) != Err::<
            Tree<T, V>,
            ParseError,
        >(ParseError::UndefinedVariable),
{
}

/// Where the first alternative of a variable's rule succeeds, the tree of
/// the variable is the node of that alternative, whatever the second
/// alternative would give.
pub proof fn lemma_first_alternative_wins<I: ?Sized, T: Terminal<I>, V: Variable>(
    rules: Grammar<T, V>,
    input: &I,
    variable: V,
    pos: nat,
    hi: nat,
    depth: nat,
)
    requires
        rules.contains_key(variable.spec_key()),
        depth > 0,
        spec_eval_first(
            rules,
            input,
            rules[variable.spec_key()].right_rule.first,
            pos,
            hi,
            (depth - 1) as nat,
        ) is Ok,
    ensures
        ({
            let (left, right) = spec_eval_first(
                rules,
                input,
                rules[variable.spec_key()].right_rule.first,
                pos,
                hi,
                (depth - 1) as nat,
            )->Ok_0;
            spec_eval_variable(rules, input, variable, pos, hi, depth) == Ok::<
                Tree<T, V>,
                ParseError,
            >(Tree::first(variable, left, right))
        }),
{
}

/// The second alternative is the result only where the first one failed:
/// a tree of the second alternative means that the first alternative gave an
/// error at that position.
pub proof fn lemma_second_alternative_only_after_first<I: ?Sized, T: Terminal<I>, V: Variable>(
    rules: Grammar<T, V>,
    input: &I,
    variable: V,
    pos: nat,
    hi: nat,
    depth: nat,
    child: Tree<T, V>,
)
    requires
        spec_eval_variable(rules, input, variable, pos, hi, depth) matches Ok(tree)
            && tree.is_second(child),
    ensures
        depth > 0,
        rules.contains_key(variable.spec_key()),
        spec_eval_first(
            rules,
            input,
            rules[variable.spec_key()].right_rule.first,
            pos,
            hi,
            (depth - 1) as nat,
        ) is Err,
{
}

/// Two results of parsing the same input under the same grammar, from the
/// same start variable, in the same whole span and with the same depth, are
/// equal.
pub proof fn lemma_reparse_equal<I: ?Sized, T: Terminal<I>, V: Variable, S: Unit, L: Unit>(
    rules: Grammar<T, V>,
    input: &I,
    start_variable: V,
    all_of_the_span: Span<S, L>,
    max_depth: nat,
    a: Result<CST<T, V, S, L>, ParseError>,
    b: Result<CST<T, V, S, L>, ParseError>,
)
    requires
        outcome_view(a) == spec_minimal_parse(
            rules,
            input,
            start_variable,
            all_of_the_span@,
            max_depth,
        ),
        outcome_view(b) == spec_minimal_parse(
            rules,
            input,
            start_variable,
            all_of_the_span@,
            max_depth,
        ),
    ensures
        a == b,
{
    match (a, b) {
        (Ok(x), Ok(y)) => {
            lemma_view_injective(x, y);
        },
        _ => {},
    }
}

/// A result of a symbol other than `DepthExceeded` is the result at every
/// greater depth.
pub proof fn lemma_symbol_depth_monotonic<I: ?Sized, T: Terminal<I>, V: Variable>(
    rules: Grammar<T, V>,
    input: &I,
    symbol: RightRuleKind<T, V>,
    pos: nat,
    hi: nat,
    depth: nat,
    more: nat,
)
    requires
        depth <= more,
        spec_eval_symbol(rules, input, symbol, pos, hi, depth) != Err::<Tree<T, V>, ParseError>(
            ParseError::DepthExceeded,
        ),
    ensures
        spec_eval_symbol(rules, input, symbol, pos, hi, more) == spec_eval_symbol(
            rules,
            input,
            symbol,
            pos,
            hi,
            depth,
        ),
    decreases depth, 1nat,
{
    match symbol {
        RightRuleKind::V(v) => {
            lemma_variable_depth_monotonic(rules, input, v, pos, hi, depth, more);
        },
        _ => {},
    }
}

/// A result of a first alternative other than `DepthExceeded` is the result
/// at every greater depth.
pub proof fn lemma_first_depth_monotonic<I: ?Sized, T: Terminal<I>, V: Variable>(
    rules: Grammar<T, V>,
    input: &I,
    first: (RightRuleKind<T, V>, RightRuleKind<T, V>),
    pos: nat,
    hi: nat,
    depth: nat,
    more: nat,
)
    requires
        depth <= more,
        spec_eval_first(rules, input, first, pos, hi, depth) != Err::<
            (Tree<T, V>, Tree<T, V>),
            ParseError,
        >(ParseError::DepthExceeded),
    ensures
        spec_eval_first(rules, input, first, pos, hi, more) == spec_eval_first(
            rules,
            input,
            first,
            pos,
            hi,
            depth,
        ),
    decreases depth, 2nat,
{
    lemma_symbol_depth_monotonic(rules, input, first.0, pos, hi, depth, more);
    if let Ok(left) = spec_eval_symbol(rules, input, first.0, pos, hi, depth) {
        lemma_symbol_depth_monotonic(rules, input, first.1, left.span.end(), hi, depth, more);
    }
}

/// A result of a variable other than `DepthExceeded` is the result at every
/// greater depth.
pub proof fn lemma_variable_depth_monotonic<I: ?Sized, T: Terminal<I>, V: Variable>(
    rules: Grammar<T, V>,
    input: &I,
    variable: V,
    pos: nat,
    hi: nat,
    depth: nat,
    more: nat,
)
    requires
        depth <= more,
        spec_eval_variable(rules, input, variable, pos, hi, depth) != Err::<
            Tree<T, V>,
            ParseError,
        >(ParseError::DepthExceeded),
    ensures
        spec_eval_variable(rules, input, variable, pos, hi, more) == spec_eval_variable(
            rules,
            input,
            variable,
            pos,
            hi,
            depth,
        ),
    decreases depth, 0nat,
{
    if rules.contains_key(variable.spec_key()) && depth > 0 {
        let right_rule = rules[variable.spec_key()].right_rule;
        let inner = (depth - 1) as nat;
        let more_inner = (more - 1) as nat;
        lemma_first_depth_monotonic(rules, input, right_rule.first, pos, hi, inner, more_inner);
        if spec_eval_first(rules, input, right_rule.first, pos, hi, inner) is Err {
            lemma_symbol_depth_monotonic(
                rules,
                input,
                right_rule.second,
                pos,
                hi,
                inner,
                more_inner,
            );
        }
    }
}

} // verus!
