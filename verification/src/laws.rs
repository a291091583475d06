//! The laws of the combinators, stated over the model and proved once and
//! for all: what each composite returns, which children run under
//! short-circuiting, and what default-print injection changes.
//!
//! Every executable matcher's `matches` ensures it returns `node_matches` of
//! its view and appends `node_output` of it, so each law below carries over
//! to the executable combinators.

use vstd::prelude::*;

use crate::builder::inject_print;
use crate::model::{
    and_output, list_output, node_effects, node_matches, node_output, or_output, EntryData, Node,
};

verus! {

/// A conjunction matches an entry exactly when every child matches it.
pub proof fn lemma_and_matches(cs: Seq<Node>, e: EntryData)
    ensures
        node_matches(Node::And(cs), e) <==> (forall|i: int|
            0 <= i < cs.len() ==> node_matches(#[trigger] cs[i], e)),
{
    let n = Node::And(cs);
    assert(n->And_0 == cs);
    if (forall|i: int| 0 <= i < cs.len() ==> node_matches(#[trigger] cs[i], e)) {
        assert(node_matches(n, e));
    } else {
        let j = choose|j: int| 0 <= j < cs.len() && !node_matches(#[trigger] cs[j], e);
        assert(!node_matches(cs[j], e));
        assert(!node_matches(n, e));
    }
}

/// A disjunction matches an entry exactly when some child matches it.
pub proof fn lemma_or_matches(cs: Seq<Node>, e: EntryData)
    ensures
        node_matches(Node::Or(cs), e) <==> (exists|i: int|
            0 <= i < cs.len() && node_matches(#[trigger] cs[i], e)),
{
    let n = Node::Or(cs);
    assert(n->Or_0 == cs);
    if (exists|i: int| 0 <= i < cs.len() && node_matches(#[trigger] cs[i], e)) {
        let j = choose|j: int| 0 <= j < cs.len() && node_matches(#[trigger] cs[j], e);
        assert(node_matches(cs[j], e));
        assert(node_matches(n, e));
    } else {
        assert(!node_matches(n, e)) by {
            if node_matches(n, e) {
                let j = choose|j: int| 0 <= j < n->Or_0.len()
                    && node_matches(#[trigger] n->Or_0[j], e);
                assert(node_matches(cs[j], e));
            }
        }
    }
}

/// A statement list returns the last statement's result; an empty list
/// returns false.
pub proof fn lemma_list_matches(cs: Seq<Node>, e: EntryData)
    ensures
        node_matches(Node::List(cs), e) <==> (cs.len() > 0 && node_matches(cs.last(), e)),
{
}

/// Negation inverts the verdict, passes side effects through unchanged, and
/// leaves the child's printing as it is.
pub proof fn lemma_not(c: Node, e: EntryData)
    ensures
        node_matches(Node::Not(Box::new(c)), e) == !node_matches(c, e),
        node_effects(Node::Not(Box::new(c))) == node_effects(c),
        node_output(Node::Not(Box::new(c)), e) == node_output(c, e),
{
}

/// Conjunction short-circuit, stated over what runs: up to the first child
/// that does not match, evaluation is the unconditional run of exactly the
/// children through that one — nothing after it is invoked, so nothing after
/// it prints.
pub proof fn lemma_and_short_circuit(cs: Seq<Node>, e: EntryData, k: int)
    requires
        0 <= k < cs.len(),
        !node_matches(cs[k], e),
        forall|i: int| 0 <= i < k ==> node_matches(#[trigger] cs[i], e),
    ensures
        !node_matches(Node::And(cs), e),
        node_output(Node::And(cs), e) == node_output(Node::List(cs.take(k + 1)), e),
{
    let n = Node::And(cs);
    assert(n->And_0 == cs);
    assert(!node_matches(n, e)) by {
        if node_matches(n, e) {
            assert(node_matches(n->And_0[k], e));
        }
    }
    lemma_and_output_cut(cs, e, k, 0);
}

/// A conjunction all of whose children match runs every child.
pub proof fn lemma_and_runs_all(cs: Seq<Node>, e: EntryData)
    requires
        forall|i: int| 0 <= i < cs.len() ==> node_matches(#[trigger] cs[i], e),
    ensures
        node_matches(Node::And(cs), e),
        node_output(Node::And(cs), e) == node_output(Node::List(cs), e),
{
    let n = Node::And(cs);
    assert(n->And_0 == cs);
    assert(node_matches(n, e)) by {
        assert(forall|i: int| 0 <= i < n->And_0.len()
            ==> node_matches(#[trigger] n->And_0[i], e)) by {
            assert(forall|i: int| 0 <= i < cs.len() ==> node_matches(#[trigger] cs[i], e));
        }
    }
    lemma_and_output_all(cs, e, 0);
}

proof fn lemma_and_output_cut(cs: Seq<Node>, e: EntryData, k: int, i: int)
    requires
        0 <= i <= k < cs.len(),
        !node_matches(cs[k], e),
        forall|j: int| i <= j < k ==> node_matches(#[trigger] cs[j], e),
    ensures
        and_output(cs, e, i) == list_output(cs.take(k + 1), e, i),
    decreases k - i,
{
    let cut = cs.take(k + 1);
    if i == k {
        assert(and_output(cs, e, k) == node_output(cs[k], e));
        assert(list_output(cut, e, k + 1) == Seq::<Seq<char>>::empty());
        assert(list_output(cut, e, k) =~= node_output(cs[k], e));
        assert(and_output(cs, e, i) =~= list_output(cut, e, i));
    } else {
        lemma_and_output_cut(cs, e, k, i + 1);
        assert(cut[i] == cs[i]);
        assert(and_output(cs, e, i) == node_output(cs[i], e) + and_output(cs, e, i + 1));
        assert(list_output(cut, e, i) == node_output(cs[i], e) + list_output(cut, e, i + 1));
    }
}

proof fn lemma_and_output_all(cs: Seq<Node>, e: EntryData, i: int)
    requires
        0 <= i <= cs.len(),
        forall|j: int| i <= j < cs.len() ==> node_matches(#[trigger] cs[j], e),
    ensures
        and_output(cs, e, i) == list_output(cs, e, i),
    decreases cs.len() - i,
{
    if i < cs.len() {
        lemma_and_output_all(cs, e, i + 1);
    }
}

/// Disjunction short-circuit: up to the first child that matches, evaluation
/// is the unconditional run of exactly the children through that one.
pub proof fn lemma_or_short_circuit(cs: Seq<Node>, e: EntryData, k: int)
    requires
        0 <= k < cs.len(),
        node_matches(cs[k], e),
        forall|i: int| 0 <= i < k ==> !node_matches(#[trigger] cs[i], e),
    ensures
        node_matches(Node::Or(cs), e),
        node_output(Node::Or(cs), e) == node_output(Node::List(cs.take(k + 1)), e),
{
    let n = Node::Or(cs);
    assert(n->Or_0 == cs);
    assert(node_matches(n->Or_0[k], e));
    assert(node_matches(n, e));
    lemma_or_output_cut(cs, e, k, 0);
}

/// A disjunction none of whose children match runs every child.
pub proof fn lemma_or_runs_all(cs: Seq<Node>, e: EntryData)
    requires
        forall|i: int| 0 <= i < cs.len() ==> !node_matches(#[trigger] cs[i], e),
    ensures
        !node_matches(Node::Or(cs), e),
        node_output(Node::Or(cs), e) == node_output(Node::List(cs), e),
{
    let n = Node::Or(cs);
    assert(n->Or_0 == cs);
    assert(!node_matches(n, e)) by {
        if node_matches(n, e) {
            let j = choose|j: int| 0 <= j < n->Or_0.len()
                && node_matches(#[trigger] n->Or_0[j], e);
            assert(node_matches(cs[j], e));
        }
    }
    lemma_or_output_all(cs, e, 0);
}

proof fn lemma_or_output_cut(cs: Seq<Node>, e: EntryData, k: int, i: int)
    requires
        0 <= i <= k < cs.len(),
        node_matches(cs[k], e),
        forall|j: int| i <= j < k ==> !node_matches(#[trigger] cs[j], e),
    ensures
        or_output(cs, e, i) == list_output(cs.take(k + 1), e, i),
    decreases k - i,
{
    let cut = cs.take(k + 1);
    if i == k {
        assert(or_output(cs, e, k) == node_output(cs[k], e));
        assert(list_output(cut, e, k + 1) == Seq::<Seq<char>>::empty());
        assert(list_output(cut, e, k) =~= node_output(cs[k], e));
        assert(or_output(cs, e, i) =~= list_output(cut, e, i));
    } else {
        lemma_or_output_cut(cs, e, k, i + 1);
        assert(cut[i] == cs[i]);
        assert(or_output(cs, e, i) == node_output(cs[i], e) + or_output(cs, e, i + 1));
        assert(list_output(cut, e, i) == node_output(cs[i], e) + list_output(cut, e, i + 1));
    }
}

proof fn lemma_or_output_all(cs: Seq<Node>, e: EntryData, i: int)
    requires
        0 <= i <= cs.len(),
        forall|j: int| i <= j < cs.len() ==> !node_matches(#[trigger] cs[j], e),
    ensures
        or_output(cs, e, i) == list_output(cs, e, i),
    decreases cs.len() - i,
{
    if i < cs.len() {
        lemma_or_output_all(cs, e, i + 1);
    }
}

/// Every statement of a list runs exactly once, whatever the earlier
/// statements returned: the list's printing splits around any statement `k`
/// into what the statements before it print, what `k` prints, and what the
/// statements after it print.
pub proof fn lemma_list_runs_every_statement(cs: Seq<Node>, e: EntryData, k: int)
    requires
        0 <= k < cs.len(),
    ensures
        node_output(Node::List(cs), e) == node_output(Node::List(cs.take(k)), e)
            + node_output(cs[k], e) + node_output(Node::List(cs.skip(k + 1)), e),
{
    lemma_list_output_prefix(cs, e, 0, k);
    lemma_list_output_shift(cs, e, k + 1);
    assert(list_output(cs, e, k) == node_output(cs[k], e) + list_output(cs, e, k + 1));
    assert(list_output(cs.take(k), e, 0) + (node_output(cs[k], e) + list_output(
        cs.skip(k + 1),
        e,
        0,
    )) =~= list_output(cs.take(k), e, 0) + node_output(cs[k], e) + list_output(
        cs.skip(k + 1),
        e,
        0,
    ));
}

proof fn lemma_list_output_prefix(cs: Seq<Node>, e: EntryData, i: int, k: int)
    requires
        0 <= i <= k <= cs.len(),
    ensures
        list_output(cs, e, i) == list_output(cs.take(k), e, i) + list_output(cs, e, k),
    decreases k - i,
{
    let cut = cs.take(k);
    if i == k {
        assert(list_output(cut, e, i) == Seq::<Seq<char>>::empty());
        assert(list_output(cs, e, i) =~= list_output(cut, e, i) + list_output(cs, e, k));
    } else {
        lemma_list_output_prefix(cs, e, i + 1, k);
        assert(cut[i] == cs[i]);
        assert(list_output(cut, e, i) == node_output(cs[i], e) + list_output(cut, e, i + 1));
        assert(list_output(cs, e, i) =~= list_output(cut, e, i) + list_output(cs, e, k));
    }
}

proof fn lemma_list_output_shift(cs: Seq<Node>, e: EntryData, k: int)
    requires
        0 <= k <= cs.len(),
    ensures
        list_output(cs, e, k) == list_output(cs.skip(k), e, 0),
    decreases cs.len() - k,
{
    lemma_list_output_shift_from(cs, e, k, 0);
}

proof fn lemma_list_output_shift_from(cs: Seq<Node>, e: EntryData, k: int, i: int)
    requires
        0 <= k,
        0 <= i,
        k + i <= cs.len(),
    ensures
        list_output(cs, e, k + i) == list_output(cs.skip(k), e, i),
    decreases cs.len() - k - i,
{
    let rest = cs.skip(k);
    if k + i < cs.len() {
        lemma_list_output_shift_from(cs, e, k, i + 1);
        assert(rest[i] == cs[k + i]);
        assert(list_output(rest, e, i) == node_output(rest[i], e) + list_output(rest, e, i + 1));
        assert(list_output(cs, e, k + i) == node_output(cs[k + i], e) + list_output(
            cs,
            e,
            k + i + 1,
        ));
    } else {
        assert(list_output(rest, e, i) == Seq::<Seq<char>>::empty());
        assert(list_output(cs, e, k + i) == Seq::<Seq<char>>::empty());
    }
}

/// A tree in which no leaf reports side effects prints nothing, whatever the
/// entry and whatever each subtree's verdict.
pub proof fn lemma_no_effects_no_output(n: Node, e: EntryData)
    requires
        !node_effects(n),
    ensures
        node_output(n, e) == Seq::<Seq<char>>::empty(),
    decreases n,
{
    match n {
        Node::Not(c) => {
            lemma_no_effects_no_output(*c, e);
        },
        Node::And(cs) => {
            lemma_children_no_output(cs, e, 0);
        },
        Node::Or(cs) => {
            lemma_children_no_output(cs, e, 0);
        },
        Node::List(cs) => {
            lemma_children_no_output(cs, e, 0);
        },
        _ => {},
    }
}

proof fn lemma_children_no_output(cs: Seq<Node>, e: EntryData, i: int)
    requires
        forall|k: int| 0 <= k < cs.len() ==> !node_effects(#[trigger] cs[k]),
        0 <= i,
    ensures
        and_output(cs, e, i) == Seq::<Seq<char>>::empty(),
        or_output(cs, e, i) == Seq::<Seq<char>>::empty(),
        list_output(cs, e, i) == Seq::<Seq<char>>::empty(),
    decreases cs, cs.len() - i,
{
    if 0 <= i && i < cs.len() {
        lemma_no_effects_no_output(cs[i], e);
        lemma_children_no_output(cs, e, i + 1);
        assert(and_output(cs, e, i) =~= Seq::<Seq<char>>::empty());
        assert(or_output(cs, e, i) =~= Seq::<Seq<char>>::empty());
        assert(list_output(cs, e, i) =~= Seq::<Seq<char>>::empty());
    }
}

/// Default-print injection: a tree with a side-effecting leaf is used
/// unchanged; a tree without one behaves as if conjoined with a print leaf —
/// the verdict is the tree's own, and exactly the matching entries' paths
/// are printed.
pub proof fn lemma_default_print_injection(tree: Node, e: EntryData)
    ensures
        node_effects(tree) ==> inject_print(tree) == tree,
        !node_effects(tree) ==> node_matches(inject_print(tree), e) == node_matches(tree, e),
        !node_effects(tree) ==> node_output(inject_print(tree), e) == (if node_matches(tree, e) {
            seq![e.path]
        } else {
            Seq::<Seq<char>>::empty()
        }),
{
    if !node_effects(tree) {
        lemma_no_effects_no_output(tree, e);
        let cs = seq![tree, Node::Print];
        let n = Node::And(cs);
        assert(n->And_0 == cs);
        assert(cs[0] == tree && cs[1] == Node::Print && cs.len() == 2);
        assert(node_matches(n, e) == node_matches(tree, e)) by {
            if node_matches(tree, e) {
                assert(forall|i: int| 0 <= i < n->And_0.len()
                    ==> node_matches(#[trigger] n->And_0[i], e)) by {
                    assert(forall|i: int| 0 <= i < cs.len()
                        ==> node_matches(#[trigger] cs[i], e)) by {
                        assert(node_matches(cs[0], e) && node_matches(cs[1], e));
                    }
                }
            } else {
                if node_matches(n, e) {
                    assert(node_matches(n->And_0[0], e));
                }
            }
        }
        if node_matches(tree, e) {
            assert(node_matches(cs[1], e));
            assert(node_output(cs[1], e) =~= seq![e.path]);
            assert(and_output(cs, e, 2) == Seq::<Seq<char>>::empty());
            assert(and_output(cs, e, 1) == node_output(cs[1], e) + and_output(cs, e, 2));
            assert(and_output(cs, e, 1) =~= seq![e.path]);
            assert(and_output(cs, e, 0) =~= seq![e.path]);
        } else {
            assert(and_output(cs, e, 0) =~= Seq::<Seq<char>>::empty());
        }
    }
}

} // verus!
