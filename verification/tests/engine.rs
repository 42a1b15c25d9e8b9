use mpl::cst::{CSTKind, Choice, InternalNode, CST};
use mpl::error::ParseError;
use mpl::parse::{eval_first, eval_metasymbol, eval_symbol, eval_variable, minimal_parse};
use mpl::position::BytePos;
use mpl::rules::{RightRule, RightRuleKind, Rule, Rules};
use mpl::span::Span;
use mpl::symbols::{Metasymbol, SliceTerminal, StrTerminal, TerminalSymbol};

type Bytes = SliceTerminal<'static, u8>;

type Tree = CST<Bytes, u32, BytePos, u16>;

fn leaf(metasymbol: Metasymbol, pos: u32, len: u16) -> Tree {
    CST::leaf_node(
        TerminalSymbol::M(metasymbol),
        Span::from_start_len(BytePos(pos), len),
    )
}

fn rule(
    variable: u32,
    left: RightRuleKind<Bytes, u32>,
    right: RightRuleKind<Bytes, u32>,
    second: RightRuleKind<Bytes, u32>,
) -> Rule<Bytes, u32> {
    Rule::new(
        variable,
        RightRule::from_right_rule_kind((left, right), second),
    )
}

#[test]
fn any_succeeds_up_to_the_end_of_the_whole_span() {
    let whole: Span<BytePos, u16> = Span::from_start_len(BytePos(2), 6);
    let exact: Result<Tree, ParseError> = eval_metasymbol(Metasymbol::Any(5), BytePos(3), &whole);
    assert_eq!(exact, Ok(leaf(Metasymbol::Any(5), 3, 5)));
    let past: Result<Tree, ParseError> = eval_metasymbol(Metasymbol::Any(6), BytePos(3), &whole);
    assert_eq!(past, Err(ParseError::OutOfBounds));
    let none: Result<Tree, ParseError> = eval_metasymbol(Metasymbol::Any(0), BytePos(8), &whole);
    assert_eq!(none, Ok(leaf(Metasymbol::Any(0), 8, 0)));
    let at_the_end: Result<Tree, ParseError> =
        eval_metasymbol(Metasymbol::Any(1), BytePos(8), &whole);
    assert_eq!(at_the_end, Err(ParseError::OutOfBounds));
    let huge: Result<Tree, ParseError> =
        eval_metasymbol(Metasymbol::Any(usize::MAX), BytePos(3), &whole);
    assert_eq!(huge, Err(ParseError::OutOfBounds));
}

#[test]
fn any_does_not_look_at_the_input() {
    let rules = Rules::new();
    let whole: Span<BytePos, u16> = Span::from_start_len(BytePos(0), 4);
    let empty: &[u8] = &[][..];
    let r: Result<Tree, ParseError> =
        eval_symbol(empty, &rules, &RightRuleKind::Any(4), BytePos(0), &whole, 0);
    assert_eq!(r, Ok(leaf(Metasymbol::Any(4), 0, 4)));
}

#[test]
fn all_consumes_what_is_left() {
    let whole: Span<BytePos, u16> = Span::from_start_len(BytePos(2), 6);
    let r: Result<Tree, ParseError> = eval_metasymbol(Metasymbol::All, BytePos(3), &whole);
    assert_eq!(r, Ok(leaf(Metasymbol::All, 3, 5)));
    let r: Result<Tree, ParseError> = eval_metasymbol(Metasymbol::All, BytePos(8), &whole);
    assert_eq!(r, Ok(leaf(Metasymbol::All, 8, 0)));
}

#[test]
fn epsilon_and_omit_consume_nothing() {
    let whole: Span<BytePos, u16> = Span::from_start_len(BytePos(2), 6);
    let r: Result<Tree, ParseError> = eval_metasymbol(Metasymbol::Epsilon, BytePos(5), &whole);
    assert_eq!(r, Ok(leaf(Metasymbol::Epsilon, 5, 0)));
    let r: Result<Tree, ParseError> = eval_metasymbol(Metasymbol::Omit, BytePos(5), &whole);
    assert_eq!(r, Ok(leaf(Metasymbol::Omit, 5, 0)));
    let r: Result<Tree, ParseError> = eval_metasymbol(Metasymbol::Epsilon, BytePos(8), &whole);
    assert_eq!(r.unwrap().span.hi(), BytePos(8));
}

#[test]
fn failure_never_matches() {
    let whole: Span<BytePos, u16> = Span::from_start_len(BytePos(2), 6);
    let r: Result<Tree, ParseError> = eval_metasymbol(Metasymbol::Failure, BytePos(2), &whole);
    assert_eq!(r, Err(ParseError::TerminalMismatch));
}

#[test]
fn undefined_variable_is_told_apart_from_a_mismatch() {
    let mut rules: Rules<Bytes, u32> = Rules::new();
    rules.insert_rule(rule(
        0,
        RightRuleKind::T(SliceTerminal::Slice(b"ab")),
        RightRuleKind::Epsilon,
        RightRuleKind::Failure,
    ));
    let input: &[u8] = &b"xy"[..];
    let whole: Span<BytePos, u16> = Span::from_start_len(BytePos(0), 2);

    let undefined: Result<Tree, ParseError> = minimal_parse(input, &rules, &7, whole, 8);
    assert_eq!(undefined, Err(ParseError::UndefinedVariable));
    let undefined: Result<Tree, ParseError> =
        eval_symbol(input, &rules, &RightRuleKind::V(7), BytePos(1), &whole, 8);
    assert_eq!(undefined, Err(ParseError::UndefinedVariable));
    let undefined: Result<Tree, ParseError> =
        eval_variable(input, &rules, &7, BytePos(1), &whole, 0);
    assert_eq!(undefined, Err(ParseError::UndefinedVariable));

    let mismatch: Result<Tree, ParseError> = eval_symbol(
        input,
        &rules,
        &RightRuleKind::T(SliceTerminal::Slice(b"ab")),
        BytePos(0),
        &whole,
        8,
    );
    assert_eq!(mismatch, Err(ParseError::TerminalMismatch));
    assert_ne!(undefined, mismatch);
}

#[test]
fn undefined_variable_in_an_alternative_fails_that_alternative() {
    let mut rules: Rules<Bytes, u32> = Rules::new();
    rules.insert_rule(rule(
        0,
        RightRuleKind::V(7),
        RightRuleKind::Epsilon,
        RightRuleKind::Any(1),
    ));
    rules.insert_rule(rule(
        1,
        RightRuleKind::Epsilon,
        RightRuleKind::V(7),
        RightRuleKind::V(8),
    ));
    let input: &[u8] = &b"xy"[..];
    let whole: Span<BytePos, u16> = Span::from_start_len(BytePos(0), 2);

    let by_second: Tree = minimal_parse(input, &rules, &0, whole, 8).unwrap();
    assert_eq!(
        by_second,
        CST::internal_node(
            InternalNode::from_second(0, leaf(Metasymbol::Any(1), 0, 1)),
            Span::from_start_len(BytePos(0), 1),
        )
    );
    let none: Result<Tree, ParseError> = minimal_parse(input, &rules, &1, whole, 8);
    assert_eq!(none, Err(ParseError::AllAlternativesFailed));
}

#[test]
fn first_alternative_is_taken_where_both_match() {
    let mut rules: Rules<Bytes, u32> = Rules::new();
    rules.insert_rule(rule(
        0,
        RightRuleKind::Any(1),
        RightRuleKind::Epsilon,
        RightRuleKind::All,
    ));
    let input: &[u8] = &b"abc"[..];
    let whole: Span<BytePos, u16> = Span::from_start_len(BytePos(0), 3);

    let second: Result<Tree, ParseError> =
        eval_symbol(input, &rules, &RightRuleKind::All, BytePos(0), &whole, 8);
    assert_eq!(second, Ok(leaf(Metasymbol::All, 0, 3)));

    let expected = CST::internal_node(
        InternalNode::from_first(
            0,
            leaf(Metasymbol::Any(1), 0, 1),
            leaf(Metasymbol::Epsilon, 1, 0),
        ),
        Span::from_start_len(BytePos(0), 1),
    );
    for _ in 0..3 {
        let parsed: Result<Tree, ParseError> = minimal_parse(input, &rules, &0, whole, 8);
        assert_eq!(parsed, Ok(expected.clone()));
    }
}

#[test]
fn second_alternative_starts_where_the_variable_started() {
    let mut rules: Rules<Bytes, u32> = Rules::new();
    // the first alternative consumes "ab" and then fails on "x"
    rules.insert_rule(rule(
        0,
        RightRuleKind::T(SliceTerminal::Slice(b"ab")),
        RightRuleKind::T(SliceTerminal::Element(b'x')),
        RightRuleKind::T(SliceTerminal::Slice(b"abc")),
    ));
    let input: &[u8] = &b"abc"[..];
    let whole: Span<BytePos, u16> = Span::from_start_len(BytePos(0), 3);
    let parsed: Tree = minimal_parse(input, &rules, &0, whole, 8).unwrap();
    assert_eq!(
        parsed,
        CST::internal_node(
            InternalNode::from_second(
                0,
                CST::leaf_node(
                    TerminalSymbol::Original(SliceTerminal::Slice(&b"abc"[..])),
                    Span::from_start_len(BytePos(0), 3),
                ),
            ),
            Span::from_start_len(BytePos(0), 3),
        )
    );
}

#[test]
fn first_alternative_evaluates_its_right_symbol_after_the_left() {
    let rules: Rules<Bytes, u32> = Rules::new();
    let input: &[u8] = &b"abcd"[..];
    let whole: Span<BytePos, u16> = Span::from_start_len(BytePos(0), 4);
    let pair: (Tree, Tree) = eval_first(
        input,
        &rules,
        &(
            RightRuleKind::T(SliceTerminal::Element(b'b')),
            RightRuleKind::T(SliceTerminal::Slice(b"cd")),
        ),
        BytePos(1),
        &whole,
        0,
    )
    .unwrap();
    assert_eq!(pair.0.span, Span::from_start_len(BytePos(1), 1));
    assert_eq!(pair.1.span, Span::from_start_len(BytePos(2), 2));

    let failed: Result<(Tree, Tree), ParseError> = eval_first(
        input,
        &rules,
        &(RightRuleKind::Any(2), RightRuleKind::Any(3)),
        BytePos(0),
        &whole,
        0,
    );
    assert_eq!(failed, Err(ParseError::OutOfBounds));
}

fn check_spans(tree: &Tree) {
    match &tree.node {
        CSTKind::LeafNode(_) => {}
        CSTKind::InternalNode(n) => match &*n.choice {
            Choice::First(l, r) => {
                assert_eq!(tree.span.start, l.span.start);
                assert_eq!(tree.span.hi(), r.span.hi());
                assert_eq!(l.span.hi(), r.span.start);
                check_spans(l);
                check_spans(r);
            }
            Choice::Second(e) => {
                assert_eq!(tree.span, e.span);
                check_spans(e);
            }
        },
    }
}

#[test]
fn internal_nodes_span_their_children() {
    let mut rules: Rules<Bytes, u32> = Rules::new();
    // 0 = 1 0 / ()
    rules.insert_rule(rule(
        0,
        RightRuleKind::V(1),
        RightRuleKind::V(0),
        RightRuleKind::Epsilon,
    ));
    // 1 = "ab" () / 2
    rules.insert_rule(rule(
        1,
        RightRuleKind::T(SliceTerminal::Slice(b"ab")),
        RightRuleKind::Epsilon,
        RightRuleKind::V(2),
    ));
    // 2 = ? "c" / f
    rules.insert_rule(rule(
        2,
        RightRuleKind::Any(1),
        RightRuleKind::T(SliceTerminal::Element(b'c')),
        RightRuleKind::Failure,
    ));
    let input: &[u8] = &b"abxcabab--"[..];
    let whole: Span<BytePos, u16> = Span::from_start_len(BytePos(0), input.len() as u16);
    let parsed: Tree = minimal_parse(input, &rules, &0, whole, 32).unwrap();
    assert_eq!(parsed.span, Span::from_start_len(BytePos(0), 8));
    check_spans(&parsed);

    let inner: Span<BytePos, u16> = Span::from_start_len(BytePos(2), 4);
    let parsed: Tree = minimal_parse(input, &rules, &0, inner, 32).unwrap();
    assert_eq!(parsed.span, Span::from_start_len(BytePos(2), 4));
    check_spans(&parsed);
}

#[test]
fn parsing_again_gives_an_equal_tree() {
    let mut rules: Rules<StrTerminal<'static>, u32> = Rules::new();
    rules.insert_rule(Rule::new(
        0,
        RightRule::from_right_rule_kind(
            (RightRuleKind::T(StrTerminal::Char('a')), RightRuleKind::V(0)),
            RightRuleKind::Omit,
        ),
    ));
    let input = "aaab";
    let whole: Span<BytePos, u16> = Span::from_start_len(BytePos(0), 4);
    let once: Result<CST<StrTerminal, u32, BytePos, u16>, ParseError> =
        minimal_parse(input, &rules, &0, whole, 8);
    let again: Result<CST<StrTerminal, u32, BytePos, u16>, ParseError> =
        minimal_parse(input, &rules, &0, whole, 8);
    assert_eq!(once, again);
    assert_eq!(once.unwrap().span, Span::from_start_len(BytePos(0), 3));

    let failed: Result<CST<StrTerminal, u32, BytePos, u16>, ParseError> =
        minimal_parse(input, &rules, &1, whole, 8);
    let failed_again: Result<CST<StrTerminal, u32, BytePos, u16>, ParseError> =
        minimal_parse(input, &rules, &1, whole, 8);
    assert_eq!(failed, failed_again);
}

#[test]
fn left_recursion_ends_at_the_depth_limit() {
    let mut rules: Rules<Bytes, u32> = Rules::new();
    // 0 = 0 () / ()
    rules.insert_rule(rule(
        0,
        RightRuleKind::V(0),
        RightRuleKind::Epsilon,
        RightRuleKind::Epsilon,
    ));
    let input: &[u8] = &b"abc"[..];
    let whole: Span<BytePos, u16> = Span::from_start_len(BytePos(0), 3);
    for depth in [0, 1, 2, 50] {
        let parsed: Result<Tree, ParseError> = minimal_parse(input, &rules, &0, whole, depth);
        assert_eq!(parsed, Err(ParseError::DepthExceeded));
    }
}

#[test]
fn depth_counts_nested_variables() {
    let mut rules: Rules<Bytes, u32> = Rules::new();
    // 0 = 1 () / (), 1 = ? () / f
    rules.insert_rule(rule(
        0,
        RightRuleKind::V(1),
        RightRuleKind::Epsilon,
        RightRuleKind::Epsilon,
    ));
    rules.insert_rule(rule(
        1,
        RightRuleKind::Any(1),
        RightRuleKind::Epsilon,
        RightRuleKind::Failure,
    ));
    let input: &[u8] = &b"abc"[..];
    let whole: Span<BytePos, u16> = Span::from_start_len(BytePos(0), 3);
    let none: Result<Tree, ParseError> = minimal_parse(input, &rules, &0, whole, 0);
    assert_eq!(none, Err(ParseError::DepthExceeded));
    // the limit is not passed over for the second alternative
    let one: Result<Tree, ParseError> = minimal_parse(input, &rules, &0, whole, 1);
    assert_eq!(one, Err(ParseError::DepthExceeded));
    let two: Result<Tree, ParseError> = minimal_parse(input, &rules, &0, whole, 2);
    let many: Result<Tree, ParseError> = minimal_parse(input, &rules, &0, whole, usize::MAX);
    assert_eq!(two.as_ref().unwrap().span, Span::from_start_len(BytePos(0), 1));
    assert_eq!(two, many);
    // a variable without variables in its rule needs one level
    let leaf_rule: Result<Tree, ParseError> = minimal_parse(input, &rules, &1, whole, 1);
    assert!(leaf_rule.is_ok());
}

#[test]
fn slice_terminals_match_elements_and_runs() {
    let input: &[u8] = &[1, 2, 3, 4][..];
    let whole: Span<BytePos, u16> = Span::from_start_len(BytePos(0), 4);
    let rules: Rules<Bytes, u32> = Rules::new();
    let r: Result<Tree, ParseError> = eval_symbol(
        input,
        &rules,
        &RightRuleKind::T(SliceTerminal::Element(3)),
        BytePos(2),
        &whole,
        0,
    );
    assert_eq!(
        r,
        Ok(CST::leaf_node(
            TerminalSymbol::Original(SliceTerminal::Element(3)),
            Span::from_start_len(BytePos(2), 1)
        ))
    );
    let r: Result<Tree, ParseError> = eval_symbol(
        input,
        &rules,
        &RightRuleKind::T(SliceTerminal::Element(3)),
        BytePos(4),
        &whole,
        0,
    );
    assert_eq!(r, Err(ParseError::TerminalMismatch));
    let short: Span<BytePos, u16> = Span::from_start_len(BytePos(0), 3);
    let r: Result<Tree, ParseError> = eval_symbol(
        input,
        &rules,
        &RightRuleKind::T(SliceTerminal::Slice(&[3, 4][..])),
        BytePos(2),
        &short,
        0,
    );
    assert_eq!(r, Err(ParseError::TerminalMismatch));
    let r: Result<Tree, ParseError> = eval_symbol(
        input,
        &rules,
        &RightRuleKind::T(SliceTerminal::Slice(&[3, 4][..])),
        BytePos(2),
        &whole,
        0,
    );
    assert_eq!(r.unwrap().span, Span::from_start_len(BytePos(2), 2));
}
