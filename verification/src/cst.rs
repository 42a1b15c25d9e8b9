//! Concrete syntax trees.
use crate::error::ParseError;
use crate::position::Unit;
use crate::span::Span;
use crate::symbols::TerminalSymbol;
use vstd::prelude::*;

verus! {

/// The children of an internal node: two where the first alternative of the
/// rule matched, one where the second did.
#[derive(Debug, PartialEq)]
pub enum Choice<E> {
    First(E, E),
    Second(E),
}

impl<E: Clone> Clone for Choice<E> {
    fn clone(&self) -> (choice: Self)
        ensures
            match (*self, choice) {
                (Choice::First(l, r), Choice::First(cl, cr)) => cloned(l, cl) && cloned(r, cr),
                (Choice::Second(e), Choice::Second(ce)) => cloned(e, ce),
                _ => false,
            },
    {
        match self {
            Choice::First(l, r) => Choice::First(l.clone(), r.clone()),
            Choice::Second(e) => Choice::Second(e.clone()),
        }
    }
}

impl<E> Choice<E> {
    pub fn first(lhs: E, rhs: E) -> (choice: Self)
        ensures
            choice == Choice::First(lhs, rhs),
    {
        Choice::First(lhs, rhs)
    }

    pub fn second(e: E) -> (choice: Self)
        ensures
            choice == Choice::Second(e),
    {
        Choice::Second(e)
    }
}

/// What a leaf holds.
pub type LeafNode<T> = TerminalSymbol<T>;

/// What an internal node holds: the variable that was expanded, and the
/// trees of the alternative that matched.
#[derive(Debug, PartialEq)]
pub struct InternalNode<T, V, S, L> {
    pub variable: V,
    pub choice: Box<Choice<CST<T, V, S, L>>>,
}

impl<T, V, S, L> InternalNode<T, V, S, L> {
    pub fn from_first(v: V, l: CST<T, V, S, L>, r: CST<T, V, S, L>) -> (node: Self)
        ensures
            node.variable == v,
            *node.choice == Choice::First(l, r),
    {
        InternalNode { variable: v, choice: Box::new(Choice::first(l, r)) }
    }

    pub fn from_second(v: V, e: CST<T, V, S, L>) -> (node: Self)
        ensures
            node.variable == v,
            *node.choice == Choice::Second(e),
    {
        InternalNode { variable: v, choice: Box::new(Choice::second(e)) }
    }
}

#[derive(Debug, PartialEq)]
pub enum CSTKind<T, V, S, L> {
    /// Terminal symbol
    LeafNode(LeafNode<T>),
    /// Variable
    InternalNode(InternalNode<T, V, S, L>),
}

/// A node of a concrete syntax tree, with the range of the input that it
/// covers.
#[derive(Debug, PartialEq)]
pub struct CST<T, V, S, L> {
    pub node: CSTKind<T, V, S, L>,
    pub span: Span<S, L>,
}

impl<T, V, S, L> CST<T, V, S, L> {
    pub fn leaf_node(leaf_node: LeafNode<T>, span: Span<S, L>) -> (cst: Self)
        ensures
            cst.node == CSTKind::<T, V, S, L>::LeafNode(leaf_node),
            cst.span == span,
    {
        CST { node: CSTKind::LeafNode(leaf_node), span }
    }

    pub fn internal_node(internal_node: InternalNode<T, V, S, L>, span: Span<S, L>) -> (cst: Self)
        ensures
            cst.node == CSTKind::InternalNode(internal_node),
            cst.span == span,
    {
        CST { node: CSTKind::InternalNode(internal_node), span }
    }
}

impl<T: Copy, V: Copy, S: Copy, L: Copy> Clone for CST<T, V, S, L> {
    fn clone(&self) -> (cst: Self)
        ensures
            cst == *self,
        decreases self,
    {
        let node = match &self.node {
            CSTKind::LeafNode(symbol) => CSTKind::LeafNode(*symbol),
            CSTKind::InternalNode(n) => {
                let choice = match &*n.choice {
                    Choice::First(l, r) => Choice::First(l.clone(), r.clone()),
                    Choice::Second(e) => Choice::Second(e.clone()),
                };
                CSTKind::InternalNode(
                    InternalNode { variable: n.variable, choice: Box::new(choice) },
                )
            },
        };
        CST { node, span: self.span }
    }
}

impl<T: Copy, V: Copy, S: Copy, L: Copy> Clone for InternalNode<T, V, S, L> {
    fn clone(&self) -> (node: Self)
        ensures
            node == *self,
    {
        let choice = match &*self.choice {
            Choice::First(l, r) => Choice::First(l.clone(), r.clone()),
            Choice::Second(e) => Choice::Second(e.clone()),
        };
        InternalNode { variable: self.variable, choice: Box::new(choice) }
    }
}

impl<T: Copy, V: Copy, S: Copy, L: Copy> Clone for CSTKind<T, V, S, L> {
    fn clone(&self) -> (kind: Self)
        ensures
            kind == *self,
    {
        match self {
            CSTKind::LeafNode(symbol) => CSTKind::LeafNode(*symbol),
            CSTKind::InternalNode(n) => CSTKind::InternalNode(n.clone()),
        }
    }
}

/// A syntax tree whose spans are natural numbers: what a tree is, whatever
/// types hold its positions and lengths.
pub type Tree<T, V> = CST<T, V, nat, nat>;

impl<T, V> CST<T, V, nat, nat> {
    /// The leaf that holds `symbol` and covers `len` units from `start`.
    pub open spec fn leaf(symbol: TerminalSymbol<T>, start: nat, len: nat) -> Self {
        CST { node: CSTKind::LeafNode(symbol), span: Span { start, len } }
    }

    /// The node of `variable` whose first alternative matched as `left`
    /// followed by `right`. It covers the input from the start of `left` to
    /// the end of `right`.
    pub open spec fn first(variable: V, left: Self, right: Self) -> Self {
        CST {
            node: CSTKind::InternalNode(
                InternalNode { variable, choice: Box::new(Choice::First(left, right)) },
            ),
            span: Span {
                start: left.span.start,
                len: if left.span.start <= right.span.end() {
                    (right.span.end() - left.span.start) as nat
                } else {
                    0
                },
            },
        }
    }

    /// The node of `variable` whose second alternative matched as `child`.
    /// It covers what `child` covers.
    pub open spec fn second(variable: V, child: Self) -> Self {
        CST {
            node: CSTKind::InternalNode(
                InternalNode { variable, choice: Box::new(Choice::Second(child)) },
            ),
            span: child.span,
        }
    }

    /// Every internal node covers exactly what its children cover: a node
    /// with two children starts where the left one starts and ends where the
    /// right one ends, the right one starting where the left one ends; a node
    /// with one child has the span of that child.
    pub open spec fn well_spanned(self) -> bool
        decreases self,
    {
        match self.node {
            CSTKind::LeafNode(_) => true,
            CSTKind::InternalNode(n) => match *n.choice {
                Choice::First(l, r) => {
                    &&& l.well_spanned()
                    &&& r.well_spanned()
                    &&& l.span.end() == r.span.start
                    &&& self.span.start == l.span.start
                    &&& self.span.end() == r.span.end()
                },
                Choice::Second(e) => e.well_spanned() && self.span == e.span,
            },
        }
    }
}

impl<T, V> CST<T, V, nat, nat> {
    /// `node` is this tree or a tree below it.
    pub open spec fn has_node(self, node: Self) -> bool
        decreases self,
    {
        self == node || match self.node {
            CSTKind::LeafNode(_) => false,
            CSTKind::InternalNode(n) => match *n.choice {
                Choice::First(l, r) => l.has_node(node) || r.has_node(node),
                Choice::Second(e) => e.has_node(node),
            },
        }
    }

    /// The tree is an internal node whose first alternative matched, with
    /// the children `left` and `right`.
    pub open spec fn is_first(self, left: Self, right: Self) -> bool {
        self.node matches CSTKind::InternalNode(n) && *n.choice == Choice::First(left, right)
    }

    /// The tree is an internal node whose second alternative matched, with
    /// the child `child`.
    pub open spec fn is_second(self, child: Self) -> bool {
        self.node matches CSTKind::InternalNode(n) && *n.choice == Choice::Second(child)
    }
}

/// Every node of a tree whose internal nodes cover what their children
/// cover is such a tree itself.
pub proof fn lemma_well_spanned_nodes<T, V>(tree: Tree<T, V>, node: Tree<T, V>)
    requires
        tree.well_spanned(),
        tree.has_node(node),
    ensures
        node.well_spanned(),
    decreases tree,
{
    if tree != node {
        match tree.node {
            CSTKind::LeafNode(_) => {},
            CSTKind::InternalNode(n) => match *n.choice {
                Choice::First(l, r) => {
                    if l.has_node(node) {
                        lemma_well_spanned_nodes(l, node);
                    } else {
                        lemma_well_spanned_nodes(r, node);
                    }
                },
                Choice::Second(e) => {
                    lemma_well_spanned_nodes(e, node);
                },
            },
        }
    }
}

/// The tree with the spans of `cst` as natural numbers.
pub open spec fn tree_of<T, V, S: Unit, L: Unit>(cst: CST<T, V, S, L>) -> Tree<T, V>
    decreases cst,
{
    CST {
        node: match cst.node {
            CSTKind::LeafNode(symbol) => CSTKind::LeafNode(symbol),
            CSTKind::InternalNode(n) => CSTKind::InternalNode(
                InternalNode {
                    variable: n.variable,
                    choice: Box::new(
                        match *n.choice {
                            Choice::First(l, r) => Choice::First(tree_of(l), tree_of(r)),
                            Choice::Second(e) => Choice::Second(tree_of(e)),
                        },
                    ),
                },
            ),
        },
        span: cst.span@,
    }
}

impl<T, V, S: Unit, L: Unit> View for CST<T, V, S, L> {
    type V = Tree<T, V>;

    open spec fn view(&self) -> Tree<T, V> {
        tree_of(*self)
    }
}

impl<T, V, S: Unit, L: Unit> CST<T, V, S, L> {
    /// The leaf that holds `symbol` and covers `len` units from `pos`.
    pub fn leaf_at(symbol: TerminalSymbol<T>, pos: S, len: u64) -> (cst: Self)
        requires
            len <= L::count_limit(),
        ensures
            cst@ == Tree::<T, V>::leaf(symbol, pos.count(), len as nat),
    {
        CST::leaf_node(symbol, Span::from_start_len(pos, L::from_u64(len).unwrap()))
    }

    /// The node of `variable` with the children `left` and `right`, which
    /// covers the input from the start of `left` to the end of `right`.
    pub fn first_of(variable: V, left: Self, right: Self) -> (cst: Self)
        requires
            right.span.well_formed(),
            left@.span.start <= right@.span.end(),
            right@.span.end() - left@.span.start <= L::count_limit(),
        ensures
            cst@ == Tree::first(variable, left@, right@),
    {
        let start = left.span.start;
        let len = L::from_u64(right.span.hi().to_u64() - start.to_u64()).unwrap();
        CST::internal_node(
            InternalNode::from_first(variable, left, right),
            Span::from_start_len(start, len),
        )
    }

    /// The node of `variable` with the one child `child`, which covers what
    /// `child` covers.
    pub fn second_of(variable: V, child: Self) -> (cst: Self)
        ensures
            cst@ == Tree::second(variable, child@),
    {
        let span = child.span;
        CST::internal_node(InternalNode::from_second(variable, child), span)
    }
}

/// The outcome of an evaluation, with the tree of a success as its view.
pub open spec fn outcome_view<T, V, S: Unit, L: Unit>(
    r: Result<CST<T, V, S, L>, ParseError>,
) -> Result<Tree<T, V>, ParseError> {
    match r {
        Ok(cst) => Ok(cst@),
        Err(e) => Err(e),
    }
}

/// Two trees with the same view are the same tree.
pub proof fn lemma_view_injective<T, V, S: Unit, L: Unit>(a: CST<T, V, S, L>, b: CST<T, V, S, L>)
    requires
        a@ == b@,
    ensures
        a == b,
    decreases a,
{
    a.span.start.lemma_count_injective(&b.span.start);
    a.span.len.lemma_count_injective(&b.span.len);
    match (a.node, b.node) {
        (CSTKind::InternalNode(m), CSTKind::InternalNode(n)) => {
            match (*m.choice, *n.choice) {
                (Choice::First(al, ar), Choice::First(bl, br)) => {
                    lemma_view_injective(al, bl);
                    lemma_view_injective(ar, br);
                },
                (Choice::Second(ae), Choice::Second(be)) => {
                    lemma_view_injective(ae, be);
                },
                _ => {},
            }
        },
        _ => {},
    }
}

} // verus!
