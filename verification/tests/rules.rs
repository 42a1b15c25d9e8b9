use mpl::cst::{Choice, CSTKind, InternalNode, CST};
use mpl::output::{project, ASTKind, AST};
use mpl::position::BytePos;
use mpl::rules::{RightRule, RightRuleKind, Rule, Rules};
use mpl::span::Span;
use mpl::symbols::{Metasymbol, StrTerminal, TerminalSymbol, Variable};

type Kind = RightRuleKind<StrTerminal<'static>, u32>;

fn right(left: Kind, right: Kind, second: Kind) -> RightRule<StrTerminal<'static>, u32> {
    RightRule::from_right_rule_kind((left, right), second)
}

#[test]
fn rules_are_found_by_their_variable() {
    let mut rules: Rules<StrTerminal<'static>, u32> = Rules::new();
    assert_eq!(rules.len(), 0);
    assert_eq!(rules.get(&3), None);
    let rule = Rule::new(3, right(RightRuleKind::All, RightRuleKind::Epsilon, RightRuleKind::Failure));
    rules.insert_rule(rule);
    assert_eq!(rules.len(), 1);
    assert_eq!(rules.get(&3), Some(&rule));
    assert_eq!(rules.get(&4), None);
    assert_eq!(rule.variable, 3);
    assert_eq!(rule.right_rule.first, (RightRuleKind::All, RightRuleKind::Epsilon));
    assert_eq!(rule.right_rule.second, RightRuleKind::Failure);
}

#[test]
fn a_rule_inserted_again_replaces_the_earlier_one() {
    let mut rules: Rules<StrTerminal<'static>, u32> = Rules::new();
    let earlier = Rule::new(3, right(RightRuleKind::All, RightRuleKind::Epsilon, RightRuleKind::Failure));
    let later = Rule::new(
        3,
        right(
            RightRuleKind::T(StrTerminal::Char('x')),
            RightRuleKind::V(3),
            RightRuleKind::Omit,
        ),
    );
    rules.insert_rule(earlier);
    rules.insert_rule(later);
    assert_eq!(rules.len(), 1);
    assert_eq!(rules.get(&3), Some(&later));
}

#[test]
fn rules_are_made_from_pairs_in_their_order() {
    let first = right(RightRuleKind::All, RightRuleKind::Epsilon, RightRuleKind::Failure);
    let second = right(RightRuleKind::Any(2), RightRuleKind::Epsilon, RightRuleKind::Failure);
    let third = right(RightRuleKind::Omit, RightRuleKind::Epsilon, RightRuleKind::Failure);
    let rules = Rules::from_pairs(&[(1, first), (2, second), (1, third)]);
    assert_eq!(rules.len(), 2);
    assert_eq!(rules.get(&1), Some(&Rule::new(1, third)));
    assert_eq!(rules.get(&2), Some(&Rule::new(2, second)));
    let none: Rules<StrTerminal<'static>, u32> = Rules::from_pairs(&[]);
    assert_eq!(none.len(), 0);
}

#[test]
fn a_closed_table_names_no_variable_without_a_rule() {
    let to_two = right(RightRuleKind::V(2), RightRuleKind::Epsilon, RightRuleKind::V(1));
    let leaf = right(RightRuleKind::Any(2), RightRuleKind::Epsilon, RightRuleKind::Failure);
    let closed = Rules::closed_from_pairs(&[(1, to_two), (2, leaf)]);
    let rules = match closed {
        Ok(rules) => rules,
        Err(_) => panic!("every variable has a rule"),
    };
    assert_eq!(rules.len(), 2);
    assert_eq!(rules.get(&1), Some(&Rule::new(1, to_two)));
    assert_eq!(rules.undefined_in(&to_two), None);
    let none: Result<Rules<StrTerminal<'static>, u32>, u32> = Rules::closed_from_pairs(&[]);
    assert!(none.is_ok());
}

#[test]
fn the_first_variable_without_a_rule_is_reported() {
    let leaf = right(RightRuleKind::Any(2), RightRuleKind::Epsilon, RightRuleKind::Failure);
    let to_many = right(RightRuleKind::V(2), RightRuleKind::V(7), RightRuleKind::V(8));
    let to_nine = right(RightRuleKind::Epsilon, RightRuleKind::Epsilon, RightRuleKind::V(9));
    match Rules::closed_from_pairs(&[(2, leaf), (3, to_nine), (1, to_many)]) {
        Ok(_) => panic!("9, 7 and 8 have no rule"),
        Err(variable) => assert_eq!(variable, 9),
    }
    match Rules::closed_from_pairs(&[(2, leaf), (1, to_many), (3, to_nine)]) {
        Ok(_) => panic!("9, 7 and 8 have no rule"),
        Err(variable) => assert_eq!(variable, 7),
    }
    // a rule that was replaced is not looked at
    match Rules::closed_from_pairs(&[(1, to_many), (2, leaf), (1, leaf)]) {
        Ok(rules) => assert_eq!(rules.len(), 2),
        Err(_) => panic!("the rule that names 7 and 8 was replaced"),
    }
    let rules = Rules::from_pairs(&[(2, leaf)]);
    assert_eq!(rules.undefined_in(&to_many), Some(7));
    assert_eq!(rules.undefined_in(&to_nine), Some(9));
    assert_eq!(rules.undefined_in(&leaf), None);
}

#[test]
fn integers_are_their_own_keys() {
    assert_eq!(7u8.key(), 7);
    assert_eq!(7u16.key(), 7);
    assert_eq!(7u32.key(), 7);
    assert_eq!(u64::MAX.key(), u64::MAX);
}

type Tree = CST<StrTerminal<'static>, u32, BytePos, u16>;

fn sample() -> Tree {
    let a: Tree = CST::leaf_node(
        TerminalSymbol::from_original(StrTerminal::Char('a')),
        Span::from_start_len(BytePos(0), 1),
    );
    let omit: Tree = CST::leaf_node(
        TerminalSymbol::from_m(Metasymbol::Omit),
        Span::from_start_len(BytePos(1), 0),
    );
    let inner = CST::internal_node(
        InternalNode::from_second(2, omit),
        Span::from_start_len(BytePos(1), 0),
    );
    CST::internal_node(
        InternalNode::from_first(1, a, inner),
        Span::from_start_len(BytePos(0), 1),
    )
}

#[test]
fn trees_are_cloned_node_by_node() {
    let tree = sample();
    assert_eq!(tree.clone(), tree);
    assert_eq!(tree.node.clone(), tree.node);
    match &tree.node {
        CSTKind::InternalNode(n) => {
            assert_eq!(n.clone(), *n);
            assert_eq!(*n.choice, Choice::first(
                CST::leaf_at(TerminalSymbol::Original(StrTerminal::Char('a')), BytePos(0), 1),
                CST::second_of(2, CST::leaf_at(TerminalSymbol::M(Metasymbol::Omit), BytePos(1), 0)),
            ));
        }
        CSTKind::LeafNode(_) => panic!("the sample is an internal node"),
    }
}

#[test]
fn nodes_are_made_with_the_spans_of_their_children() {
    let left: Tree = CST::leaf_at(TerminalSymbol::M(Metasymbol::Any(3)), BytePos(4), 3);
    let right: Tree = CST::leaf_at(TerminalSymbol::M(Metasymbol::All), BytePos(7), 2);
    let node = CST::first_of(9, left.clone(), right.clone());
    assert_eq!(node.span, Span::from_start_len(BytePos(4), 5));
    assert_eq!(node.node, CSTKind::InternalNode(InternalNode::from_first(9, left.clone(), right)));
    let node = CST::second_of(9, left.clone());
    assert_eq!(node.span, left.span);
    assert_eq!(*match &node.node {
        CSTKind::InternalNode(n) => n.choice.clone(),
        CSTKind::LeafNode(_) => panic!("the node is an internal node"),
    }, Choice::second(left));
}

#[test]
fn a_tree_without_values_has_the_shape_of_its_tree() {
    let tree = sample();
    let ast: AST<u8, StrTerminal<'static>, u32, BytePos, u16> = AST::from_cst(&tree);
    assert_eq!(ast.to_cst(), tree);
    assert_eq!(ast.output, None);
    assert_eq!(ast.span, tree.span);
    let projected: AST<(), StrTerminal<'static>, u32, BytePos, u16> = project("a", &tree);
    assert_eq!(projected.to_cst(), tree);
    assert_eq!(projected.output, None);
    match &projected.node {
        ASTKind::InternalNode { variable, choice } => {
            assert_eq!(*variable, 1);
            match &**choice {
                Choice::First(l, r) => {
                    assert_eq!(l.node, ASTKind::LeafNode(TerminalSymbol::Original(StrTerminal::Char('a'))));
                    assert_eq!(l.output, None);
                    assert_eq!(r.span, Span::from_start_len(BytePos(1), 0));
                }
                Choice::Second(_) => panic!("the sample has two children"),
            }
        }
        ASTKind::LeafNode(_) => panic!("the sample is an internal node"),
    }
}
