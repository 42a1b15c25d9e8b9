//! Rules for sequences of more than two symbols.
//!
//! A rule holds two symbols in its first alternative. A longer sequence is
//! a chain of rules: each rule holds one symbol of the sequence and the
//! variable of the next rule, and the last rule holds the last two symbols.
use crate::cst::Tree;
use crate::error::ParseError;
use crate::laws::lemma_symbol_depth_monotonic;
use crate::parse::{
    lemma_eval_first_span, lemma_eval_symbol_span, lemma_eval_variable_span, spec_eval_first,
    spec_eval_symbol, spec_eval_variable,
};
use crate::rules::{Grammar, RightRule, RightRuleKind};
use crate::symbols::{Terminal, Variable};
use vstd::prelude::*;

verus! {

/// The rule `left right / f`: a sequence without a fallback.
pub open spec fn spec_link<T, V>(left: RightRuleKind<T, V>, right: RightRuleKind<T, V>) -> RightRule<
    T,
    V,
> {
    RightRule { first: (left, right), second: RightRuleKind::Failure }
}

/// The rules that make `head` match the symbols of `symbols` one after the
/// other, with the variables of `links` for the rules after the first.
///
/// Up to two symbols take one rule. Of more symbols, each but the last two
/// takes a rule that holds the symbol and the variable of the next rule.
pub open spec fn spec_sequence_rules<T, V>(
    head: V,
    symbols: Seq<RightRuleKind<T, V>>,
    links: Seq<V>,
) -> Seq<(V, RightRule<T, V>)>
    decreases symbols.len(),
{
    if symbols.len() == 0 {
        seq![(head, spec_link(RightRuleKind::Epsilon, RightRuleKind::Epsilon))]
    } else if symbols.len() == 1 {
        seq![(head, spec_link(symbols[0], RightRuleKind::Epsilon))]
    } else if symbols.len() == 2 || links.len() == 0 {
        seq![(head, spec_link(symbols[0], symbols[1]))]
    } else {
        seq![(head, spec_link(symbols[0], RightRuleKind::V(links[0])))] + spec_sequence_rules(
            links[0],
            symbols.drop_first(),
            links.drop_first(),
        )
    }
}

/// The rule `left right / f`.
pub fn link<T, V>(left: RightRuleKind<T, V>, right: RightRuleKind<T, V>) -> (right_rule: RightRule<
    T,
    V,
>)
    ensures
        right_rule == spec_link(left, right),
{
    RightRule::from_right_rule_kind((left, right), RightRuleKind::Failure)
}

/// The rules that make `head` match the symbols of `symbols` one after the
/// other. A sequence of more than two symbols needs a variable of `links`
/// for each symbol but two; with fewer there is no result.
pub fn sequence_rules<T: Copy, V: Copy>(
    head: V,
    symbols: &[RightRuleKind<T, V>],
    links: &[V],
) -> (rules: Option<Vec<(V, RightRule<T, V>)>>)
    ensures
        match rules {
            Some(rules) => symbols@.len() <= links@.len() + 2 && rules@ == spec_sequence_rules(
                head,
                symbols@,
                links@,
            ),
            None => symbols@.len() > links@.len() + 2,
        },
{
    let n: usize = symbols.len();
    let mut rules: Vec<(V, RightRule<T, V>)> = Vec::new();
    if n == 0 {
        rules.push((head, link(RightRuleKind::Epsilon, RightRuleKind::Epsilon)));
        assert(rules@ =~= spec_sequence_rules(head, symbols@, links@));
        return Some(rules);
    }
    if n == 1 {
        rules.push((head, link(symbols[0], RightRuleKind::Epsilon)));
        assert(rules@ =~= spec_sequence_rules(head, symbols@, links@));
        return Some(rules);
    }
    if n - 2 > links.len() {
        return None;
    }
    let mut current = head;
    let mut i: usize = 0;
    assert(symbols@.skip(0) == symbols@ && links@.skip(0) == links@);
    assert(rules@ + spec_sequence_rules(head, symbols@, links@) =~= spec_sequence_rules(
        head,
        symbols@,
        links@,
    ));
    while i < n - 2
        invariant
            n == symbols@.len(),
            2 <= n <= links@.len() + 2,
            i <= n - 2,
            rules@ + spec_sequence_rules(current, symbols@.skip(i as int), links@.skip(i as int))
                == spec_sequence_rules(head, symbols@, links@),
        decreases n - i,
    {
        let ghost before = rules@;
        rules.push((current, link(symbols[i], RightRuleKind::V(links[i]))));
        proof {
            assert(symbols@.skip(i as int).drop_first() == symbols@.skip(i + 1));
            assert(links@.skip(i as int).drop_first() == links@.skip(i + 1));
            assert(rules@ + spec_sequence_rules(
                links@[i as int],
                symbols@.skip(i + 1),
                links@.skip(i + 1),
            ) =~= before + spec_sequence_rules(
                current,
                symbols@.skip(i as int),
                links@.skip(i as int),
            ));
        }
        current = links[i];
        i += 1;
    }
    let ghost before = rules@;
    rules.push((current, link(symbols[i], symbols[i + 1])));
    assert(rules@ =~= before + spec_sequence_rules(
        current,
        symbols@.skip(i as int),
        links@.skip(i as int),
    ));
    Some(rules)
}

/// The grammar holds the rules of `pairs`: for the variable of each pair it
/// has the right-hand side of that pair.
pub open spec fn holds<T, V: Variable>(rules: Grammar<T, V>, pairs: Seq<(V, RightRule<T, V>)>) -> bool {
    forall|i: int|
        0 <= i < pairs.len() ==> rules.contains_key((#[trigger] pairs[i]).0.spec_key())
            && rules[pairs[i].0.spec_key()].right_rule == pairs[i].1
}

/// What the evaluation of the symbols of `symbols` one after the other
/// gives, each at the end of the one before: the position at which the last
/// one ends, or the error of the first one that fails.
pub open spec fn spec_eval_sequence<I: ?Sized, T: Terminal<I>, V: Variable>(
    rules: Grammar<T, V>,
    input: &I,
    symbols: Seq<RightRuleKind<T, V>>,
    pos: nat,
    hi: nat,
    depth: nat,
) -> Result<nat, ParseError>
    decreases symbols.len(),
{
    if symbols.len() == 0 {
        Ok(pos)
    } else {
        match spec_eval_symbol(rules, input, symbols[0], pos, hi, depth) {
            Ok(tree) => spec_eval_sequence(
                rules,
                input,
                symbols.drop_first(),
                tree.span.end(),
                hi,
                depth,
            ),
            Err(e) => Err(e),
        }
    }
}

/// Under a grammar that holds the rules of a sequence, the head variable
/// matches what the symbols match one after the other.
///
/// Where the symbols succeed at `depth`, the head succeeds at every depth
/// that leaves `depth` levels below the chain of rules, and its tree covers
/// the input from the position to the end of the last symbol. Where a symbol
/// fails at `depth` with an error other than `DepthExceeded`, the head fails
/// at every such depth: both alternatives of a rule of the chain have failed.
pub proof fn lemma_sequence_rules<I: ?Sized, T: Terminal<I>, V: Variable>(
    rules: Grammar<T, V>,
    input: &I,
    head: V,
    symbols: Seq<RightRuleKind<T, V>>,
    links: Seq<V>,
    pos: nat,
    hi: nat,
    depth: nat,
    more: nat,
)
    requires
        symbols.len() <= links.len() + 2,
        holds(rules, spec_sequence_rules(head, symbols, links)),
        pos <= hi,
        more > depth + symbols.len(),
    ensures
        match spec_eval_sequence(rules, input, symbols, pos, hi, depth) {
            Ok(end) => spec_eval_variable(rules, input, head, pos, hi, more) matches Ok(tree) && {
                &&& tree.span.start == pos
                &&& tree.span.end() == end
                &&& tree.well_spanned()
            },
            Err(ParseError::DepthExceeded) => true,
            Err(_) => spec_eval_variable(rules, input, head, pos, hi, more) == Err::<
                Tree<T, V>,
                ParseError,
            >(ParseError::AllAlternativesFailed),
        },
    decreases symbols.len(),
{
    let pairs = spec_sequence_rules(head, symbols, links);
    let inner = (more - 1) as nat;
    assert(pairs[0].0 == head);
    let right_rule = rules[head.spec_key()].right_rule;
    assert(right_rule == pairs[0].1);
    assert(right_rule.second == RightRuleKind::<T, V>::Failure);
    let first = spec_eval_first(rules, input, right_rule.first, pos, hi, inner);
    let whole = spec_eval_variable(rules, input, head, pos, hi, more);
    let failed = spec_eval_symbol(rules, input, right_rule.second, pos, hi, inner);
    assert(failed == Err::<Tree<T, V>, ParseError>(ParseError::TerminalMismatch));
    assert(whole == match first {
        Ok((left, right)) => Ok(Tree::first(head, left, right)),
        Err(ParseError::DepthExceeded) => Err(ParseError::DepthExceeded),
        Err(_) => Err(ParseError::AllAlternativesFailed),
    });
    lemma_eval_variable_span(rules, input, head, pos, hi, more);
    lemma_eval_first_span(rules, input, right_rule.first, pos, hi, inner);
    if symbols.len() == 0 {
        assert(right_rule.first == (
            RightRuleKind::<T, V>::Epsilon,
            RightRuleKind::<T, V>::Epsilon,
        ));
        assert(spec_eval_symbol(rules, input, right_rule.first.0, pos, hi, inner) is Ok);
        assert(spec_eval_symbol(rules, input, right_rule.first.1, pos, hi, inner) is Ok);
        assert(first is Ok);
    } else {
        let rest = symbols.drop_first();
        assert(right_rule.first.0 == symbols[0]);
        let at_depth = spec_eval_symbol(rules, input, symbols[0], pos, hi, depth);
        lemma_eval_symbol_span(rules, input, symbols[0], pos, hi, depth);
        if at_depth != Err::<Tree<T, V>, ParseError>(ParseError::DepthExceeded) {
            lemma_symbol_depth_monotonic(rules, input, symbols[0], pos, hi, depth, inner);
            assert(spec_eval_symbol(rules, input, right_rule.first.0, pos, hi, inner) == at_depth);
        }
        if let Ok(left) = at_depth {
            let next = left.span.end();
            let after = spec_eval_symbol(rules, input, right_rule.first.1, next, hi, inner);
            assert(first == match after {
                Ok(right) => Ok((left, right)),
                Err(e) => Err::<(Tree<T, V>, Tree<T, V>), ParseError>(e),
            });
            if symbols.len() == 1 {
                assert(rest.len() == 0);
                assert(right_rule.first.1 == RightRuleKind::<T, V>::Epsilon);
                assert(after is Ok);
                assert(after->Ok_0.span.end() == next);
                assert(spec_eval_sequence(rules, input, rest, next, hi, depth) == Ok::<
                    nat,
                    ParseError,
                >(next));
            } else if symbols.len() == 2 {
                assert(rest.len() == 1);
                assert(rest[0] == symbols[1]);
                assert(right_rule.first.1 == symbols[1]);
                let second_at_depth = spec_eval_symbol(rules, input, symbols[1], next, hi, depth);
                lemma_eval_symbol_span(rules, input, symbols[1], next, hi, depth);
                if second_at_depth != Err::<Tree<T, V>, ParseError>(ParseError::DepthExceeded) {
                    lemma_symbol_depth_monotonic(rules, input, symbols[1], next, hi, depth, inner);
                    assert(after == second_at_depth);
                }
                assert(spec_eval_sequence(rules, input, rest, next, hi, depth) == match second_at_depth {
                    Ok(right) => spec_eval_sequence(
                        rules,
                        input,
                        rest.drop_first(),
                        right.span.end(),
                        hi,
                        depth,
                    ),
                    Err(e) => Err(e),
                });
                if let Ok(right) = second_at_depth {
                    assert(rest.drop_first().len() == 0);
                    assert(spec_eval_sequence(
                        rules,
                        input,
                        rest.drop_first(),
                        right.span.end(),
                        hi,
                        depth,
                    ) == Ok::<nat, ParseError>(right.span.end()));
                }
            } else {
                assert(links.len() > 0);
                assert(right_rule.first.1 == RightRuleKind::<T, V>::V(links[0]));
                let below = spec_sequence_rules(links[0], rest, links.drop_first());
                assert(pairs =~= seq![(head, spec_link(symbols[0], RightRuleKind::V(links[0])))]
                    + below);
                assert forall|i: int| 0 <= i < below.len() implies rules.contains_key(
                    (#[trigger] below[i]).0.spec_key(),
                ) && rules[below[i].0.spec_key()].right_rule == below[i].1 by {
                    assert(pairs[i + 1] == below[i]);
                }
                lemma_sequence_rules(
                    rules,
                    input,
                    links[0],
                    rest,
                    links.drop_first(),
                    next,
                    hi,
                    depth,
                    inner,
                );
                assert(after == spec_eval_variable(rules, input, links[0], next, hi, inner));
            }
        }
    }
}

} // verus!
