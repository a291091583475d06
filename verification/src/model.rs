//! The mathematical model of an expression tree and of its evaluation.
//!
//! A `Node` is the shape of a matcher tree: the constant leaves, the print
//! action, an external predicate leaf, and the four composites.  Evaluation of
//! a tree against one entry yields a boolean (`node_matches`) and the ordered
//! sequence of paths printed along the way (`node_output`); whether a tree
//! could print at all is `node_effects`.  The executable matchers in the rest
//! of the crate are specified against these three functions.

use vstd::prelude::*;

verus! {

/// What evaluation sees of one filesystem entry: its path, and which
/// externally judged predicates (flag and argument, e.g. a name pattern)
/// hold of it.  The external predicate implementations themselves are not
/// part of this crate; their verdicts arrive with the entry.
pub struct EntryData {
    pub path: Seq<char>,
    pub satisfied: Seq<(Seq<char>, Seq<char>)>,
}

/// The shape of a matcher tree.
///
/// `Or` children are conjunctions and `List` children are disjunctions when
/// the tree was built by this crate, but the semantics below do not depend
/// on that.
#[verifier::ext_equal]
pub enum Node {
    /// Always matches, prints nothing.
    True,
    /// Never matches, prints nothing.
    False,
    /// Prints the entry's path and matches.
    Print,
    /// An externally judged predicate, identified by its flag and argument.
    Pred { flag: Seq<char>, arg: Seq<char> },
    /// Matches iff its child does not; any printing of the child remains.
    Not(Box<Node>),
    /// Matches iff all children match, evaluated left to right and stopping
    /// after the first child that does not match.
    And(Seq<Node>),
    /// Matches iff some child matches, evaluated left to right and stopping
    /// after the first child that matches.
    Or(Seq<Node>),
    /// Evaluates every child unconditionally; the result is the last child's.
    List(Seq<Node>),
}

/// The boolean verdict of evaluating `n` against `e`.
pub open spec fn node_matches(n: Node, e: EntryData) -> bool
    decreases n,
{
    match n {
        Node::True => true,
        Node::False => false,
        Node::Print => true,
        Node::Pred { flag, arg } => e.satisfied.contains((flag, arg)),
        Node::Not(c) => !node_matches(*c, e),
        Node::And(cs) => forall|i: int| 0 <= i < cs.len() ==> node_matches(#[trigger] cs[i], e),
        Node::Or(cs) => exists|i: int| 0 <= i < cs.len() && node_matches(#[trigger] cs[i], e),
        Node::List(cs) => cs.len() > 0 && node_matches(cs.last(), e),
    }
}

/// The paths printed by evaluating `n` against `e`, in order.
pub open spec fn node_output(n: Node, e: EntryData) -> Seq<Seq<char>>
    decreases n,
{
    match n {
        Node::True => Seq::empty(),
        Node::False => Seq::empty(),
        Node::Print => seq![e.path],
        Node::Pred { flag, arg } => Seq::empty(),
        Node::Not(c) => node_output(*c, e),
        Node::And(cs) => and_output(cs, e, 0),
        Node::Or(cs) => or_output(cs, e, 0),
        Node::List(cs) => list_output(cs, e, 0),
    }
}

/// Output of a conjunction from child `i` on: children are evaluated until
/// one does not match, and nothing after that child runs.
pub open spec fn and_output(cs: Seq<Node>, e: EntryData, i: int) -> Seq<Seq<char>>
    decreases cs, cs.len() - i,
{
    if i < 0 || i >= cs.len() {
        Seq::empty()
    } else if node_matches(cs[i], e) {
        node_output(cs[i], e) + and_output(cs, e, i + 1)
    } else {
        node_output(cs[i], e)
    }
}

/// Output of a disjunction from child `i` on: children are evaluated until
/// one matches, and nothing after that child runs.
pub open spec fn or_output(cs: Seq<Node>, e: EntryData, i: int) -> Seq<Seq<char>>
    decreases cs, cs.len() - i,
{
    if i < 0 || i >= cs.len() {
        Seq::empty()
    } else if node_matches(cs[i], e) {
        node_output(cs[i], e)
    } else {
        node_output(cs[i], e) + or_output(cs, e, i + 1)
    }
}

/// Output of a statement list from child `i` on: every child runs.
pub open spec fn list_output(cs: Seq<Node>, e: EntryData, i: int) -> Seq<Seq<char>>
    decreases cs, cs.len() - i,
{
    if i < 0 || i >= cs.len() {
        Seq::empty()
    } else {
        node_output(cs[i], e) + list_output(cs, e, i + 1)
    }
}

/// Whether evaluating `n` could print: true iff some leaf of the subtree is
/// the print action.  Independent of any entry.
pub open spec fn node_effects(n: Node) -> bool
    decreases n,
{
    match n {
        Node::True => false,
        Node::False => false,
        Node::Print => true,
        Node::Pred { flag, arg } => false,
        Node::Not(c) => node_effects(*c),
        Node::And(cs) => exists|i: int| 0 <= i < cs.len() && node_effects(#[trigger] cs[i]),
        Node::Or(cs) => exists|i: int| 0 <= i < cs.len() && node_effects(#[trigger] cs[i]),
        Node::List(cs) => exists|i: int| 0 <= i < cs.len() && node_effects(#[trigger] cs[i]),
    }
}

/// Appends one child to a conjunction.
pub open spec fn and_push(n: Node, c: Node) -> Node {
    match n {
        Node::And(cs) => Node::And(cs.push(c)),
        _ => n,
    }
}

/// Appends one leaf into the open (last) branch of a disjunction.
pub open spec fn or_push_leaf(n: Node, c: Node) -> Node {
    match n {
        Node::Or(bs) => Node::Or(bs.update(bs.len() - 1, and_push(bs.last(), c))),
        _ => n,
    }
}

/// Opens a new, empty branch in a disjunction.
pub open spec fn or_open_branch(n: Node) -> Node {
    match n {
        Node::Or(bs) => Node::Or(bs.push(Node::And(Seq::empty()))),
        _ => n,
    }
}

/// Whether the open branch of a disjunction has no children yet.
pub open spec fn or_last_empty(n: Node) -> bool {
    match n {
        Node::Or(bs) => bs.len() == 0 || (match bs.last() {
            Node::And(cs) => cs.len() == 0,
            _ => false,
        }),
        _ => false,
    }
}

/// Appends one leaf into the open branch of the open statement of a list.
pub open spec fn list_push_leaf(n: Node, c: Node) -> Node {
    match n {
        Node::List(ss) => Node::List(ss.update(ss.len() - 1, or_push_leaf(ss.last(), c))),
        _ => n,
    }
}

/// Opens a new branch in the open statement of a list.
pub open spec fn list_open_branch(n: Node) -> Node {
    match n {
        Node::List(ss) => Node::List(ss.update(ss.len() - 1, or_open_branch(ss.last()))),
        _ => n,
    }
}

/// Opens a new statement, with one empty branch, in a list.
pub open spec fn list_open_statement(n: Node) -> Node {
    match n {
        Node::List(ss) => Node::List(ss.push(Node::Or(seq![Node::And(Seq::empty())]))),
        _ => n,
    }
}

/// Whether the open branch of the open statement of a list is empty.
pub open spec fn list_last_empty(n: Node) -> bool {
    match n {
        Node::List(ss) => ss.len() == 0 || or_last_empty(ss.last()),
        _ => false,
    }
}

/// A list as the tree builder starts it: one statement of one empty branch.
pub open spec fn empty_list() -> Node {
    Node::List(seq![Node::Or(seq![Node::And(Seq::empty())])])
}

} // verus!
