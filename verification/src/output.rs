//! Syntax trees whose nodes carry values that the caller computes.
use crate::cst::{Choice, CSTKind, InternalNode, CST};
use crate::span::Span;
use crate::symbols::{Metasymbol, TerminalSymbol};
use vstd::prelude::*;

verus! {

/// A value that a node of a syntax tree may carry.
///
/// Whether a node has a value, and which, is a function of the input and
/// the node: [`Output::spec_output`].
pub trait Output<I: ?Sized, T, V, S, L>: Sized {
    /// The value of the node `cst` of a tree that was parsed from `input`;
    /// `None` where the node has no value.
    spec fn spec_output(input: &I, cst: &CST<T, V, S, L>) -> Option<Self>;

    /// Computes the value of the node `cst`.
    fn output(input: &I, cst: &CST<T, V, S, L>) -> (value: Option<Self>)
        ensures
            value == Self::spec_output(input, cst),
    ;
}

/// The value of the nodes of a tree that carries no values.
impl<I: ?Sized, T, V, S, L> Output<I, T, V, S, L> for () {
    open spec fn spec_output(input: &I, cst: &CST<T, V, S, L>) -> Option<Self> {
        None
    }

    fn output(input: &I, cst: &CST<T, V, S, L>) -> (value: Option<Self>) {
        None
    }
}

#[derive(Debug, PartialEq)]
pub enum ASTKind<O, T, V, S, L> {
    /// Terminal symbol
    LeafNode(TerminalSymbol<T>),
    /// Variable
    InternalNode { variable: V, choice: Box<Choice<AST<O, T, V, S, L>>> },
}

/// A node of a syntax tree with the value that it carries, if any.
#[derive(Debug, PartialEq)]
pub struct AST<O, T, V, S, L> {
    pub node: ASTKind<O, T, V, S, L>,
    pub span: Span<S, L>,
    pub output: Option<O>,
}

impl<O, T, V, S, L> AST<O, T, V, S, L> {
    /// The tree without its values.
    pub open spec fn cst(self) -> CST<T, V, S, L>
        decreases self,
    {
        CST {
            node: match self.node {
                ASTKind::LeafNode(symbol) => CSTKind::LeafNode(symbol),
                ASTKind::InternalNode { variable, choice } => CSTKind::InternalNode(
                    InternalNode {
                        variable,
                        choice: Box::new(
                            match *choice {
                                Choice::First(l, r) => Choice::First(l.cst(), r.cst()),
                                Choice::Second(e) => Choice::Second(e.cst()),
                            },
                        ),
                    },
                ),
            },
            span: self.span,
        }
    }
}

impl<O, T: Copy, V: Copy, S: Copy, L: Copy> AST<O, T, V, S, L> {
    /// The tree of `cst` in which no node carries a value.
    pub fn from_cst(cst: &CST<T, V, S, L>) -> (ast: Self)
        ensures
            ast == spec_from_cst::<O, T, V, S, L>(*cst),
        decreases cst,
    {
        let node = match &cst.node {
            CSTKind::LeafNode(symbol) => ASTKind::LeafNode(*symbol),
            CSTKind::InternalNode(n) => {
                let choice = match &*n.choice {
                    Choice::First(l, r) => Choice::First(AST::from_cst(l), AST::from_cst(r)),
                    Choice::Second(e) => Choice::Second(AST::from_cst(e)),
                };
                ASTKind::InternalNode { variable: n.variable, choice: Box::new(choice) }
            },
        };
        AST { node, span: cst.span, output: None }
    }

    /// The tree without its values.
    pub fn to_cst(&self) -> (cst: CST<T, V, S, L>)
        ensures
            cst == self.cst(),
        decreases self,
    {
        let node = match &self.node {
            ASTKind::LeafNode(symbol) => CSTKind::LeafNode(*symbol),
            ASTKind::InternalNode { variable, choice } => {
                let choice = match &**choice {
                    Choice::First(l, r) => Choice::First(l.to_cst(), r.to_cst()),
                    Choice::Second(e) => Choice::Second(e.to_cst()),
                };
                CSTKind::InternalNode(InternalNode { variable: *variable, choice: Box::new(choice) })
            },
        };
        CST { node, span: self.span }
    }
}

/// The tree of `cst` in which no node carries a value.
pub open spec fn spec_from_cst<O, T, V, S, L>(cst: CST<T, V, S, L>) -> AST<O, T, V, S, L>
    decreases cst,
{
    AST {
        node: match cst.node {
            CSTKind::LeafNode(symbol) => ASTKind::LeafNode(symbol),
            CSTKind::InternalNode(n) => ASTKind::InternalNode {
                variable: n.variable,
                choice: Box::new(
                    match *n.choice {
                        Choice::First(l, r) => Choice::First(spec_from_cst(l), spec_from_cst(r)),
                        Choice::Second(e) => Choice::Second(spec_from_cst(e)),
                    },
                ),
            },
        },
        span: cst.span,
        output: None,
    }
}

/// The value that the node `cst` carries: the one that `O` gives it, and
/// none where the node is a leaf of `Omit`.
pub open spec fn spec_value<I: ?Sized, O: Output<I, T, V, S, L>, T, V, S, L>(
    input: &I,
    cst: CST<T, V, S, L>,
) -> Option<O> {
    if cst.node == CSTKind::<T, V, S, L>::LeafNode(TerminalSymbol::M(Metasymbol::Omit)) {
        None
    } else {
        O::spec_output(input, &cst)
    }
}

/// The tree of `cst` in which every node carries its value.
pub open spec fn spec_project<I: ?Sized, O: Output<I, T, V, S, L>, T, V, S, L>(
    input: &I,
    cst: CST<T, V, S, L>,
) -> AST<O, T, V, S, L>
    decreases cst,
{
    AST {
        node: match cst.node {
            CSTKind::LeafNode(symbol) => ASTKind::LeafNode(symbol),
            CSTKind::InternalNode(n) => ASTKind::InternalNode {
                variable: n.variable,
                choice: Box::new(
                    match *n.choice {
                        Choice::First(l, r) => Choice::First(
                            spec_project(input, l),
                            spec_project(input, r),
                        ),
                        Choice::Second(e) => Choice::Second(spec_project(input, e)),
                    },
                ),
            },
        },
        span: cst.span,
        output: spec_value(input, cst),
    }
}

/// Gives every node of `cst` its value: first the nodes below a node, then
/// the node itself. A leaf of `Omit` gets none. The result has the shape and
/// the spans of `cst`.
pub fn project<I: ?Sized, O: Output<I, T, V, S, L>, T: Copy, V: Copy, S: Copy, L: Copy>(
    input: &I,
    cst: &CST<T, V, S, L>,
) -> (ast: AST<O, T, V, S, L>)
    ensures
        ast == spec_project::<I, O, T, V, S, L>(input, *cst),
        ast.cst() == *cst,
    decreases cst,
{
    match &cst.node {
        CSTKind::LeafNode(symbol) => {
            let output = match symbol {
                TerminalSymbol::M(Metasymbol::Omit) => None,
                _ => O::output(input, cst),
            };
            AST { node: ASTKind::LeafNode(*symbol), span: cst.span, output }
        },
        CSTKind::InternalNode(n) => {
            let choice = match &*n.choice {
                Choice::First(l, r) => Choice::First(project(input, l), project(input, r)),
                Choice::Second(e) => Choice::Second(project(input, e)),
            };
            let output = O::output(input, cst);
            AST {
                node: ASTKind::InternalNode { variable: n.variable, choice: Box::new(choice) },
                span: cst.span,
                output,
            }
        },
    }
}

/// A tree with values has the shape and the spans of the tree that it was
/// made from, and its root carries the value of the root.
pub proof fn lemma_project_same_shape<I: ?Sized, O: Output<I, T, V, S, L>, T, V, S, L>(
    input: &I,
    cst: CST<T, V, S, L>,
)
    ensures
        spec_project::<I, O, T, V, S, L>(input, cst).cst() == cst,
        spec_project::<I, O, T, V, S, L>(input, cst).output == spec_value::<I, O, T, V, S, L>(
            input,
            cst,
        ),
        spec_from_cst::<O, T, V, S, L>(cst).cst() == cst,
    decreases cst,
{
    match cst.node {
        CSTKind::LeafNode(_) => {},
        CSTKind::InternalNode(n) => match *n.choice {
            Choice::First(l, r) => {
                lemma_project_same_shape::<I, O, T, V, S, L>(input, l);
                lemma_project_same_shape::<I, O, T, V, S, L>(input, r);
            },
            Choice::Second(e) => {
                lemma_project_same_shape::<I, O, T, V, S, L>(input, e);
            },
        },
    }
}

} // verus!
