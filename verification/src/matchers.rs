//! The matcher combinators: constant leaves, the external-predicate leaf,
//! negation, and the three composites that carry `find`'s precedence
//! (conjunction, disjunction of conjunctions, statement list).
//!
//! Every matcher's view is a `Node` of the model, and `matches` is proved to
//! return `node_matches` of that view while appending exactly `node_output`
//! of it to the output sink.

use vstd::prelude::*;

use crate::entry::{Output, PathInfo};
use crate::errors::BuildError;
use crate::model::{
    and_push, list_last_empty, list_open_branch, list_open_statement, list_push_leaf,
    node_effects, node_matches, node_output, or_last_empty, or_open_branch, or_push_leaf,
    Node,
};
use crate::printer::Printer;

verus! {

/// A simple matcher that always matches.
#[derive(Debug)]
pub struct TrueMatcher {}

/// A simple matcher that never matches.
#[derive(Debug)]
pub struct FalseMatcher {}

/// A leaf whose verdict an external predicate supplies: the entry says
/// whether the predicate with this flag and argument holds of it.
#[derive(Debug)]
pub struct PredMatcher {
    flag: String,
    arg: String,
}

/// Matcher that wraps another matcher and inverts the matching criteria.
#[derive(Debug)]
pub struct NotMatcher {
    submatcher: Box<Matcher>,
}

/// A conjunction: matches only entries that all sub-matchers match, with
/// sub-matchers evaluated (and their printing done) in the order they were
/// pushed, stopping at the first that does not match.
#[derive(Debug)]
pub struct AndMatcher {
    submatchers: Vec<Matcher>,
}

/// A disjunction of conjunctions: matches entries that any branch matches,
/// with branches evaluated in order and evaluation stopping at the first
/// branch that matches.  The last branch is the open one that new
/// conjuncts are appended into.
#[derive(Debug)]
pub struct OrMatcher {
    submatchers: Vec<AndMatcher>,
}

/// A statement list: every statement is evaluated, whatever the earlier
/// statements returned, and the result is the last statement's.  The last
/// statement is the open one.
#[derive(Debug)]
pub struct ListMatcher {
    submatchers: Vec<OrMatcher>,
}

/// Any matcher the tree can hold.
#[derive(Debug)]
pub enum Matcher {
    True(TrueMatcher),
    False(FalseMatcher),
    Print(Printer),
    Pred(PredMatcher),
    Not(NotMatcher),
    And(AndMatcher),
    List(ListMatcher),
}

/// The views of the matchers from index `i` on.
spec fn matcher_nodes_from(ms: Seq<Matcher>, i: int) -> Seq<Node>
    decreases ms, ms.len() - i,
{
    if i < 0 || i >= ms.len() {
        Seq::empty()
    } else {
        seq![ms[i]@] + matcher_nodes_from(ms, i + 1)
    }
}

/// The views of the conjunctions from index `i` on.
spec fn and_nodes_from(ms: Seq<AndMatcher>, i: int) -> Seq<Node>
    decreases ms, ms.len() - i,
{
    if i < 0 || i >= ms.len() {
        Seq::empty()
    } else {
        seq![ms[i]@] + and_nodes_from(ms, i + 1)
    }
}

/// The views of the disjunctions from index `i` on.
spec fn or_nodes_from(ms: Seq<OrMatcher>, i: int) -> Seq<Node>
    decreases ms, ms.len() - i,
{
    if i < 0 || i >= ms.len() {
        Seq::empty()
    } else {
        seq![ms[i]@] + or_nodes_from(ms, i + 1)
    }
}

proof fn lemma_matcher_nodes(ms: Seq<Matcher>, i: int)
    requires
        0 <= i <= ms.len(),
    ensures
        matcher_nodes_from(ms, i).len() == ms.len() - i,
        forall|k: int| 0 <= k < ms.len() - i
            ==> matcher_nodes_from(ms, i)[k] == ms[i + k]@,
    decreases ms.len() - i,
{
    if i < ms.len() {
        lemma_matcher_nodes(ms, i + 1);
        assert(seq![ms[i]@].len() == 1);
        assert(matcher_nodes_from(ms, i) == seq![ms[i]@] + matcher_nodes_from(ms, i + 1));
    } else {
        assert(matcher_nodes_from(ms, i) == Seq::<Node>::empty());
    }
}

proof fn lemma_and_nodes(ms: Seq<AndMatcher>, i: int)
    requires
        0 <= i <= ms.len(),
    ensures
        and_nodes_from(ms, i).len() == ms.len() - i,
        forall|k: int| 0 <= k < ms.len() - i ==> and_nodes_from(ms, i)[k] == ms[i + k]@,
    decreases ms.len() - i,
{
    if i < ms.len() {
        lemma_and_nodes(ms, i + 1);
        assert(seq![ms[i]@].len() == 1);
        assert(and_nodes_from(ms, i) == seq![ms[i]@] + and_nodes_from(ms, i + 1));
    } else {
        assert(and_nodes_from(ms, i) == Seq::<Node>::empty());
    }
}

proof fn lemma_or_nodes(ms: Seq<OrMatcher>, i: int)
    requires
        0 <= i <= ms.len(),
    ensures
        or_nodes_from(ms, i).len() == ms.len() - i,
        forall|k: int| 0 <= k < ms.len() - i ==> or_nodes_from(ms, i)[k] == ms[i + k]@,
    decreases ms.len() - i,
{
    if i < ms.len() {
        lemma_or_nodes(ms, i + 1);
        assert(seq![ms[i]@].len() == 1);
        assert(or_nodes_from(ms, i) == seq![ms[i]@] + or_nodes_from(ms, i + 1));
    } else {
        assert(or_nodes_from(ms, i) == Seq::<Node>::empty());
    }
}

impl View for TrueMatcher {
    type V = Node;

    open spec fn view(&self) -> Node {
        Node::True
    }
}

impl View for FalseMatcher {
    type V = Node;

    open spec fn view(&self) -> Node {
        Node::False
    }
}

impl View for PredMatcher {
    type V = Node;

    closed spec fn view(&self) -> Node {
        Node::Pred { flag: self.flag@, arg: self.arg@ }
    }
}

impl View for NotMatcher {
    type V = Node;

    closed spec fn view(&self) -> Node
        decreases self,
    {
        Node::Not(Box::new((*self.submatcher)@))
    }
}

impl View for AndMatcher {
    type V = Node;

    closed spec fn view(&self) -> Node
        decreases self,
    {
        Node::And(matcher_nodes_from(self.submatchers@, 0))
    }
}

impl View for OrMatcher {
    type V = Node;

    closed spec fn view(&self) -> Node
        decreases self,
    {
        Node::Or(and_nodes_from(self.submatchers@, 0))
    }
}

impl View for ListMatcher {
    type V = Node;

    closed spec fn view(&self) -> Node
        decreases self,
    {
        Node::List(or_nodes_from(self.submatchers@, 0))
    }
}

impl View for Matcher {
    type V = Node;

    open spec fn view(&self) -> Node
        decreases self,
    {
        match self {
            Matcher::True(m) => m@,
            Matcher::False(m) => m@,
            Matcher::Print(m) => m@,
            Matcher::Pred(m) => m@,
            Matcher::Not(m) => m@,
            Matcher::And(m) => m@,
            Matcher::List(m) => m@,
        }
    }
}

impl PredMatcher {
    pub fn new(flag: String, arg: String) -> (m: PredMatcher)
        ensures
            m@ == (Node::Pred { flag: flag@, arg: arg@ }),
    {
        PredMatcher { flag, arg }
    }
}

impl NotMatcher {
    pub fn new(submatcher: Box<Matcher>) -> (m: NotMatcher)
        ensures
            m@ == Node::Not(Box::new((*submatcher)@)),
    {
        NotMatcher { submatcher }
    }
}

impl AndMatcher {
    pub fn new() -> (m: AndMatcher)
        ensures
            m@ == Node::And(Seq::<Node>::empty()),
    {
        let m = AndMatcher { submatchers: Vec::new() };
        proof {
            assert(m@->And_0 =~= Seq::<Node>::empty());
        }
        m
    }

    /// Appends one more conjunct; it is evaluated after all those already
    /// pushed.
    pub fn new_and_condition(&mut self, matcher: Box<Matcher>)
        ensures
            final(self)@ == and_push(old(self)@, (*matcher)@),
    {
        let ghost c = (*matcher)@;
        let ghost before = self.submatchers@;
        self.submatchers.push(*matcher);
        proof {
            lemma_matcher_nodes(before, 0);
            lemma_matcher_nodes(self.submatchers@, 0);
            assert(matcher_nodes_from(self.submatchers@, 0)
                =~= matcher_nodes_from(before, 0).push(c));
        }
    }
}

impl OrMatcher {
    /// There is always at least one branch: the open one.
    pub closed spec fn wf(&self) -> bool {
        self.submatchers@.len() >= 1
    }

    pub fn new() -> (m: OrMatcher)
        ensures
            m.wf(),
            m@ == Node::Or(seq![Node::And(Seq::<Node>::empty())]),
    {
        let mut o = OrMatcher { submatchers: Vec::new() };
        o.submatchers.push(AndMatcher::new());
        proof {
            lemma_and_nodes(o.submatchers@, 0);
            assert(o@->Or_0 =~= seq![Node::And(Seq::<Node>::empty())]);
        }
        o
    }

    /// Appends one conjunct into the open branch.
    pub fn new_and_condition(&mut self, matcher: Box<Matcher>)
        requires
            old(self).wf(),
        ensures
            final(self).wf(),
            final(self)@ == or_push_leaf(old(self)@, (*matcher)@),
    {
        let ghost c = (*matcher)@;
        let ghost before = self.submatchers@;
        let mut last = self.submatchers.pop().unwrap();
        last.new_and_condition(matcher);
        self.submatchers.push(last);
        proof {
            lemma_and_nodes(before, 0);
            lemma_and_nodes(self.submatchers@, 0);
            assert(and_nodes_from(self.submatchers@, 0)
                =~= and_nodes_from(before, 0).update(
                    before.len() - 1,
                    and_push(before.last()@, c),
                ));
            assert(before.last()@ == and_nodes_from(before, 0).last());
        }
    }

    /// Opens a new branch, to hold what follows an explicit OR operator;
    /// rejected when nothing stands in the branch before it.
    pub fn new_or_condition(&mut self, arg: &str) -> (r: Result<(), BuildError>)
        requires
            old(self).wf(),
        ensures
            final(self).wf(),
            or_last_empty(old(self)@) ==> r is Err && final(self)@ == old(self)@
                && r->Err_0@ == crate::errors::msg_binary_operator(arg@),
            !or_last_empty(old(self)@) ==> r is Ok
                && final(self)@ == or_open_branch(old(self)@),
    {
        let ghost before = self.submatchers@;
        proof {
            lemma_and_nodes(before, 0);
            lemma_matcher_nodes(before.last().submatchers@, 0);
        }
        if self.submatchers[self.submatchers.len() - 1].submatchers.len() == 0 {
            return Err(BuildError::binary_operator(arg));
        }
        self.submatchers.push(AndMatcher::new());
        proof {
            lemma_and_nodes(self.submatchers@, 0);
            assert(and_nodes_from(self.submatchers@, 0)
                =~= and_nodes_from(before, 0).push(Node::And(Seq::<Node>::empty())));
        }
        Ok(())
    }
}

impl ListMatcher {
    /// There is always at least one statement, itself well formed: the open
    /// one.
    pub closed spec fn wf(&self) -> bool {
        self.submatchers@.len() >= 1
            && forall|i: int| 0 <= i < self.submatchers@.len()
                ==> (#[trigger] self.submatchers@[i]).wf()
    }

    pub fn new() -> (m: ListMatcher)
        ensures
            m.wf(),
            m@ == crate::model::empty_list(),
    {
        let mut o = ListMatcher { submatchers: Vec::new() };
        o.submatchers.push(OrMatcher::new());
        proof {
            lemma_or_nodes(o.submatchers@, 0);
            assert(o@->List_0 =~= crate::model::empty_list()->List_0);
        }
        o
    }

    /// Appends one conjunct into the open branch of the open statement.
    pub fn new_and_condition(&mut self, matcher: Box<Matcher>)
        requires
            old(self).wf(),
        ensures
            final(self).wf(),
            final(self)@ == list_push_leaf(old(self)@, (*matcher)@),
    {
        let ghost c = (*matcher)@;
        let ghost before = self.submatchers@;
        let mut last = self.submatchers.pop().unwrap();
        last.new_and_condition(matcher);
        self.submatchers.push(last);
        proof {
            lemma_or_nodes(before, 0);
            lemma_or_nodes(self.submatchers@, 0);
            assert(or_nodes_from(self.submatchers@, 0)
                =~= or_nodes_from(before, 0).update(
                    before.len() - 1,
                    or_push_leaf(before.last()@, c),
                ));
            assert(before.last()@ == or_nodes_from(before, 0).last());
        }
    }

    /// Opens a new branch in the open statement, for an explicit OR operator.
    pub fn new_or_condition(&mut self, arg: &str) -> (r: Result<(), BuildError>)
        requires
            old(self).wf(),
        ensures
            final(self).wf(),
            list_last_empty(old(self)@) ==> r is Err && final(self)@ == old(self)@
                && r->Err_0@ == crate::errors::msg_binary_operator(arg@),
            !list_last_empty(old(self)@) ==> r is Ok
                && final(self)@ == list_open_branch(old(self)@),
    {
        let ghost before = self.submatchers@;
        let mut last = self.submatchers.pop().unwrap();
        let r = last.new_or_condition(arg);
        let ghost after_last = last;
        self.submatchers.push(last);
        proof {
            lemma_or_nodes(before, 0);
            lemma_or_nodes(self.submatchers@, 0);
            assert(or_nodes_from(self.submatchers@, 0)
                =~= or_nodes_from(before, 0).update(before.len() - 1, after_last@));
            assert(before.last()@ == or_nodes_from(before, 0).last());
            if !or_last_empty(before.last()@) {
                assert(final(self)@->List_0
                    =~= list_open_branch(Node::List(or_nodes_from(before, 0)))->List_0);
            } else {
                assert(or_nodes_from(self.submatchers@, 0) =~= or_nodes_from(before, 0));
            }
        }
        match r {
            Ok(()) => Ok(()),
            Err(e) => Err(e),
        }
    }

    /// Opens a new statement, for the statement-separator operator; rejected
    /// when the open branch of the open statement is still empty.
    pub fn new_list_condition(&mut self) -> (r: Result<(), BuildError>)
        requires
            old(self).wf(),
        ensures
            final(self).wf(),
            list_last_empty(old(self)@) ==> r is Err && final(self)@ == old(self)@
                && r->Err_0@ == crate::errors::msg_binary_operator(","@),
            !list_last_empty(old(self)@) ==> r is Ok
                && final(self)@ == list_open_statement(old(self)@),
    {
        let ghost before = self.submatchers@;
        proof {
            lemma_or_nodes(before, 0);
            lemma_and_nodes(before.last().submatchers@, 0);
            lemma_matcher_nodes(before.last().submatchers@.last().submatchers@, 0);
        }
        {
            let child_or_matcher = &self.submatchers[self.submatchers.len() - 1];
            let grandchild_and_matcher =
                &child_or_matcher.submatchers[child_or_matcher.submatchers.len() - 1];
            if grandchild_and_matcher.submatchers.len() == 0 {
                return Err(BuildError::binary_operator(","));
            }
        }
        self.submatchers.push(OrMatcher::new());
        proof {
            lemma_or_nodes(self.submatchers@, 0);
            assert(or_nodes_from(self.submatchers@, 0)
                =~= or_nodes_from(before, 0).push(
                    Node::Or(seq![Node::And(Seq::<Node>::empty())]),
                ));
        }
        Ok(())
    }
}

impl TrueMatcher {
    /// Matches every entry and prints nothing.
    pub fn matches(&self, dir_entry: &PathInfo, out: &mut Output) -> (r: bool)
        ensures
            r == node_matches(self@, dir_entry@),
            final(out)@ == old(out)@ + node_output(self@, dir_entry@),
    {
        proof {
            assert(out@ =~= old(out)@ + node_output(self@, dir_entry@));
        }
        true
    }

    pub fn has_side_effects(&self) -> (r: bool)
        ensures
            r == node_effects(self@),
    {
        false
    }
}

impl FalseMatcher {
    /// Matches no entry and prints nothing.
    pub fn matches(&self, dir_entry: &PathInfo, out: &mut Output) -> (r: bool)
        ensures
            r == node_matches(self@, dir_entry@),
            final(out)@ == old(out)@ + node_output(self@, dir_entry@),
    {
        proof {
            assert(out@ =~= old(out)@ + node_output(self@, dir_entry@));
        }
        false
    }

    pub fn has_side_effects(&self) -> (r: bool)
        ensures
            r == node_effects(self@),
    {
        false
    }
}

impl PredMatcher {
    /// Matches iff the entry reports that this external predicate holds of
    /// it; prints nothing.
    pub fn matches(&self, dir_entry: &PathInfo, out: &mut Output) -> (r: bool)
        ensures
            r == node_matches(self@, dir_entry@),
            final(out)@ == old(out)@ + node_output(self@, dir_entry@),
    {
        proof {
            assert(out@ =~= old(out)@ + node_output(self@, dir_entry@));
        }
        dir_entry.satisfies(&self.flag, &self.arg)
    }

    pub fn has_side_effects(&self) -> (r: bool)
        ensures
            r == node_effects(self@),
    {
        false
    }
}

impl NotMatcher {
    /// Matches iff the wrapped matcher does not; whatever the wrapped
    /// matcher prints is still printed.
    pub fn matches(&self, dir_entry: &PathInfo, out: &mut Output) -> (r: bool)
        ensures
            r == node_matches(self@, dir_entry@),
            final(out)@ == old(out)@ + node_output(self@, dir_entry@),
        decreases *self,
    {
        !self.submatcher.matches(dir_entry, out)
    }

    pub fn has_side_effects(&self) -> (r: bool)
        ensures
            r == node_effects(self@),
        decreases *self,
    {
        self.submatcher.has_side_effects()
    }
}

impl AndMatcher {
    /// Returns true if all sub-matchers return true.  Short-circuiting does
    /// take place: after the first sub-matcher that returns false no further
    /// sub-matcher is invoked, so nothing later prints.
    pub fn matches(&self, dir_entry: &PathInfo, out: &mut Output) -> (r: bool)
        ensures
            r == node_matches(self@, dir_entry@),
            final(out)@ == old(out)@ + node_output(self@, dir_entry@),
        decreases *self,
    {
        let ghost e = dir_entry@;
        let ghost cs = matcher_nodes_from(self.submatchers@, 0);
        proof {
            lemma_matcher_nodes(self.submatchers@, 0);
        }
        let ghost mut acc = Seq::<Seq<char>>::empty();
        proof {
            assert(out@ =~= old(out)@ + acc);
        }
        let mut i: usize = 0;
        while i < self.submatchers.len()
            invariant
                0 <= i <= self.submatchers@.len(),
                cs == matcher_nodes_from(self.submatchers@, 0),
                cs.len() == self.submatchers@.len(),
                forall|k: int| 0 <= k < cs.len() ==> cs[k] == self.submatchers@[k]@,
                e == dir_entry@,
                forall|k: int| 0 <= k < i ==> node_matches(#[trigger] cs[k], e),
                out@ == old(out)@ + acc,
                crate::model::and_output(cs, e, 0) =~= acc + crate::model::and_output(
                    cs,
                    e,
                    i as int,
                ),
            decreases self.submatchers@.len() - i,
        {
            let ghost acc0 = acc;
            let b = self.submatchers[i].matches(dir_entry, out);
            proof {
                acc = acc + node_output(cs[i as int], e);
                assert(out@ =~= old(out)@ + acc);
                if b {
                    assert(crate::model::and_output(cs, e, i as int) == node_output(
                        cs[i as int],
                        e,
                    ) + crate::model::and_output(cs, e, i + 1));
                    assert(crate::model::and_output(cs, e, 0) =~= acc
                        + crate::model::and_output(cs, e, i + 1));
                } else {
                    assert(crate::model::and_output(cs, e, i as int) == node_output(
                        cs[i as int],
                        e,
                    ));
                    assert(crate::model::and_output(cs, e, 0) =~= acc);
                }
            }
            if !b {
                proof {
                    assert(!node_matches(cs[i as int], e));
                    assert(self@->And_0 == cs);
                    assert(!node_matches(self@, e));
                    assert(out@ =~= old(out)@ + node_output(self@, e));
                }
                return false;
            }
            i = i + 1;
        }
        proof {
            assert(crate::model::and_output(cs, e, cs.len() as int)
                =~= Seq::<Seq<char>>::empty());
            assert(crate::model::and_output(cs, e, 0) =~= acc);
            assert(out@ =~= old(out)@ + node_output(self@, e));
        }
        true
    }

    /// True iff some sub-matcher reports side effects.
    pub fn has_side_effects(&self) -> (r: bool)
        ensures
            r == node_effects(self@),
        decreases *self,
    {
        let ghost cs = matcher_nodes_from(self.submatchers@, 0);
        proof {
            lemma_matcher_nodes(self.submatchers@, 0);
        }
        let mut i: usize = 0;
        while i < self.submatchers.len()
            invariant
                0 <= i <= self.submatchers@.len(),
                cs == matcher_nodes_from(self.submatchers@, 0),
                cs.len() == self.submatchers@.len(),
                forall|k: int| 0 <= k < cs.len() ==> cs[k] == self.submatchers@[k]@,
                forall|k: int| 0 <= k < i ==> !node_effects(#[trigger] cs[k]),
            decreases self.submatchers@.len() - i,
        {
            if self.submatchers[i].has_side_effects() {
                proof {
                    assert(node_effects(cs[i as int]));
                    assert(self@->And_0 == cs);
                    assert(node_effects(self@));
                }
                return true;
            }
            i = i + 1;
        }
        false
    }
}

impl OrMatcher {
    /// Returns true if any branch returns true.  Short-circuiting does take
    /// place: after the first branch that returns true no further branch is
    /// invoked, so nothing later prints.
    pub fn matches(&self, dir_entry: &PathInfo, out: &mut Output) -> (r: bool)
        ensures
            r == node_matches(self@, dir_entry@),
            final(out)@ == old(out)@ + node_output(self@, dir_entry@),
        decreases *self,
    {
        let ghost e = dir_entry@;
        let ghost cs = and_nodes_from(self.submatchers@, 0);
        proof {
            lemma_and_nodes(self.submatchers@, 0);
        }
        let ghost mut acc = Seq::<Seq<char>>::empty();
        proof {
            assert(out@ =~= old(out)@ + acc);
        }
        let mut i: usize = 0;
        while i < self.submatchers.len()
            invariant
                0 <= i <= self.submatchers@.len(),
                cs == and_nodes_from(self.submatchers@, 0),
                cs.len() == self.submatchers@.len(),
                forall|k: int| 0 <= k < cs.len() ==> cs[k] == self.submatchers@[k]@,
                e == dir_entry@,
                forall|k: int| 0 <= k < i ==> !node_matches(#[trigger] cs[k], e),
                out@ == old(out)@ + acc,
                crate::model::or_output(cs, e, 0) =~= acc + crate::model::or_output(
                    cs,
                    e,
                    i as int,
                ),
            decreases self.submatchers@.len() - i,
        {
            let b = self.submatchers[i].matches(dir_entry, out);
            proof {
                acc = acc + node_output(cs[i as int], e);
                assert(out@ =~= old(out)@ + acc);
                if b {
                    assert(crate::model::or_output(cs, e, i as int) == node_output(
                        cs[i as int],
                        e,
                    ));
                    assert(crate::model::or_output(cs, e, 0) =~= acc);
                } else {
                    assert(crate::model::or_output(cs, e, i as int) == node_output(
                        cs[i as int],
                        e,
                    ) + crate::model::or_output(cs, e, i + 1));
                    assert(crate::model::or_output(cs, e, 0) =~= acc
                        + crate::model::or_output(cs, e, i + 1));
                }
            }
            if b {
                proof {
                    assert(node_matches(cs[i as int], e));
                    assert(self@->Or_0 == cs);
                    assert(node_matches(self@, e));
                    assert(out@ =~= old(out)@ + node_output(self@, e));
                }
                return true;
            }
            i = i + 1;
        }
        proof {
            assert(crate::model::or_output(cs, e, cs.len() as int)
                =~= Seq::<Seq<char>>::empty());
            assert(crate::model::or_output(cs, e, 0) =~= acc);
            assert(out@ =~= old(out)@ + node_output(self@, e));
        }
        false
    }

    /// True iff some branch reports side effects.
    pub fn has_side_effects(&self) -> (r: bool)
        ensures
            r == node_effects(self@),
        decreases *self,
    {
        let ghost cs = and_nodes_from(self.submatchers@, 0);
        proof {
            lemma_and_nodes(self.submatchers@, 0);
        }
        let mut i: usize = 0;
        while i < self.submatchers.len()
            invariant
                0 <= i <= self.submatchers@.len(),
                cs == and_nodes_from(self.submatchers@, 0),
                cs.len() == self.submatchers@.len(),
                forall|k: int| 0 <= k < cs.len() ==> cs[k] == self.submatchers@[k]@,
                forall|k: int| 0 <= k < i ==> !node_effects(#[trigger] cs[k]),
            decreases self.submatchers@.len() - i,
        {
            if self.submatchers[i].has_side_effects() {
                proof {
                    assert(node_effects(cs[i as int]));
                    assert(self@->Or_0 == cs);
                    assert(node_effects(self@));
                }
                return true;
            }
            i = i + 1;
        }
        false
    }
}

impl ListMatcher {
    /// Calls `matches` on every statement, with no short-circuiting: earlier
    /// statements' printing always happens.  Returns the result of the call
    /// on the final statement.
    pub fn matches(&self, dir_entry: &PathInfo, out: &mut Output) -> (r: bool)
        ensures
            r == node_matches(self@, dir_entry@),
            final(out)@ == old(out)@ + node_output(self@, dir_entry@),
        decreases *self,
    {
        let ghost e = dir_entry@;
        let ghost cs = or_nodes_from(self.submatchers@, 0);
        proof {
            lemma_or_nodes(self.submatchers@, 0);
        }
        let ghost mut acc = Seq::<Seq<char>>::empty();
        proof {
            assert(out@ =~= old(out)@ + acc);
        }
        let mut rc = false;
        let mut i: usize = 0;
        while i < self.submatchers.len()
            invariant
                0 <= i <= self.submatchers@.len(),
                cs == or_nodes_from(self.submatchers@, 0),
                cs.len() == self.submatchers@.len(),
                forall|k: int| 0 <= k < cs.len() ==> cs[k] == self.submatchers@[k]@,
                e == dir_entry@,
                rc == (i > 0 && node_matches(cs[i - 1], e)),
                out@ == old(out)@ + acc,
                crate::model::list_output(cs, e, 0) =~= acc + crate::model::list_output(
                    cs,
                    e,
                    i as int,
                ),
            decreases self.submatchers@.len() - i,
        {
            rc = self.submatchers[i].matches(dir_entry, out);
            proof {
                acc = acc + node_output(cs[i as int], e);
                assert(out@ =~= old(out)@ + acc);
                assert(crate::model::list_output(cs, e, i as int) == node_output(
                    cs[i as int],
                    e,
                ) + crate::model::list_output(cs, e, i + 1));
                assert(crate::model::list_output(cs, e, 0) =~= acc
                    + crate::model::list_output(cs, e, i + 1));
            }
            i = i + 1;
        }
        proof {
            assert(crate::model::list_output(cs, e, cs.len() as int)
                =~= Seq::<Seq<char>>::empty());
            assert(crate::model::list_output(cs, e, 0) =~= acc);
            assert(out@ =~= old(out)@ + node_output(self@, e));
            if cs.len() > 0 {
                assert(cs.last() == cs[cs.len() - 1]);
            }
        }
        rc
    }

    /// True iff some statement reports side effects.
    pub fn has_side_effects(&self) -> (r: bool)
        ensures
            r == node_effects(self@),
        decreases *self,
    {
        let ghost cs = or_nodes_from(self.submatchers@, 0);
        proof {
            lemma_or_nodes(self.submatchers@, 0);
        }
        let mut i: usize = 0;
        while i < self.submatchers.len()
            invariant
                0 <= i <= self.submatchers@.len(),
                cs == or_nodes_from(self.submatchers@, 0),
                cs.len() == self.submatchers@.len(),
                forall|k: int| 0 <= k < cs.len() ==> cs[k] == self.submatchers@[k]@,
                forall|k: int| 0 <= k < i ==> !node_effects(#[trigger] cs[k]),
            decreases self.submatchers@.len() - i,
        {
            if self.submatchers[i].has_side_effects() {
                proof {
                    assert(node_effects(cs[i as int]));
                    assert(self@->List_0 == cs);
                    assert(node_effects(self@));
                }
                return true;
            }
            i = i + 1;
        }
        false
    }
}

impl Matcher {
    /// Returns whether the given entry matches this matcher's predicate,
    /// appending whatever evaluation prints to the output sink.
    pub fn matches(&self, dir_entry: &PathInfo, out: &mut Output) -> (r: bool)
        ensures
            r == node_matches(self@, dir_entry@),
            final(out)@ == old(out)@ + node_output(self@, dir_entry@),
        decreases *self,
    {
        match self {
            Matcher::True(m) => m.matches(dir_entry, out),
            Matcher::False(m) => m.matches(dir_entry, out),
            Matcher::Print(m) => m.matches(dir_entry, out),
            Matcher::Pred(m) => m.matches(dir_entry, out),
            Matcher::Not(m) => m.matches(dir_entry, out),
            Matcher::And(m) => m.matches(dir_entry, out),
            Matcher::List(m) => m.matches(dir_entry, out),
        }
    }

    /// Returns whether evaluating this matcher could print.  A pure query:
    /// it prints nothing itself.
    pub fn has_side_effects(&self) -> (r: bool)
        ensures
            r == node_effects(self@),
        decreases *self,
    {
        match self {
            Matcher::True(m) => m.has_side_effects(),
            Matcher::False(m) => m.has_side_effects(),
            Matcher::Print(m) => m.has_side_effects(),
            Matcher::Pred(m) => m.has_side_effects(),
            Matcher::Not(m) => m.has_side_effects(),
            Matcher::And(m) => m.has_side_effects(),
            Matcher::List(m) => m.has_side_effects(),
        }
    }
}

} // verus!
