//! The tree builder: compiles a flat sequence of expression tokens into a
//! statement-list matcher, respecting `find`'s precedence rules (implicit AND
//! binds tightest, explicit OR looser, the statement separator loosest; NOT
//! prefixes exactly the next expression; parentheses group explicitly).
//!
//! `parse_from` is the mathematical parser: one recursion step per token,
//! carrying the open tree and the pending-negation flag.  The executable
//! builder is proved to return exactly its result, error messages included.

use vstd::prelude::*;

use crate::errors::{
    msg_binary_operator, msg_expected_closing, msg_expected_expression, msg_missing_argument,
    msg_too_many_closing, msg_unrecognized, BuildError,
};
use crate::matchers::{
    AndMatcher, FalseMatcher, ListMatcher, Matcher, NotMatcher, PredMatcher, TrueMatcher,
};
use crate::model::{
    empty_list, list_last_empty, list_open_branch, list_open_statement, list_push_leaf,
    node_effects, Node,
};
use crate::printer::Printer;
use crate::text::str_eq;

verus! {

/// The traversal configuration the walker owns.  The `-d`/`-depth` token
/// switches on depth-first traversal and produces no matcher.
pub struct Config {
    pub depth_first: bool,
}

impl Config {
    pub fn new() -> (c: Config)
        ensures
            !c.depth_first,
    {
        Config { depth_first: false }
    }
}

/// The tokens as character sequences.
pub open spec fn views_of(args: Seq<&str>) -> Seq<Seq<char>> {
    args.map_values(|s: &str| s@)
}

/// Whether an expression follows the token at `i`: there is a next token and
/// it is not a closing group.
pub open spec fn more_expressions(args: Seq<Seq<char>>, i: int) -> bool {
    i + 1 < args.len() && args[i + 1] != ")"@
}

/// The leaf as appended: wrapped in a negation when one is pending.
pub open spec fn wrap(invert: bool, leaf: Node) -> Node {
    if invert {
        Node::Not(Box::new(leaf))
    } else {
        leaf
    }
}

/// How many tokens are left from `i` on; the parser's termination measure.
pub open spec fn remaining(args: Seq<Seq<char>>, i: int) -> int {
    if i <= args.len() {
        args.len() - i
    } else {
        0
    }
}

/// One recursion level of the parser, from token `i` on.  `expecting_bracket`
/// is true only when this level was entered through an opening group;
/// `invert` is the pending negation; `depth` whether a `-d`/`-depth` token
/// was seen so far; `acc` the statement list built so far.  Returns the index
/// the level stopped at (its closing group, or the end), the finished list,
/// and the depth flag — or the fatal error.
pub open spec fn parse_from(
    args: Seq<Seq<char>>,
    i: int,
    expecting_bracket: bool,
    invert: bool,
    depth: bool,
    acc: Node,
) -> Result<(int, Node, bool), Seq<char>>
    decreases remaining(args, i),
{
    if i < 0 || i >= args.len() {
        if expecting_bracket {
            Err(msg_expected_closing())
        } else {
            Ok((i, acc, depth))
        }
    } else {
        let t = args[i];
        if t == "-print"@ {
            parse_from(args, i + 1, expecting_bracket, false, depth,
                list_push_leaf(acc, wrap(invert, Node::Print)))
        } else if t == "-true"@ {
            parse_from(args, i + 1, expecting_bracket, false, depth,
                list_push_leaf(acc, wrap(invert, Node::True)))
        } else if t == "-false"@ {
            parse_from(args, i + 1, expecting_bracket, false, depth,
                list_push_leaf(acc, wrap(invert, Node::False)))
        } else if t == "-name"@ || t == "-iname"@ || t == "-type"@ {
            if i >= args.len() - 1 {
                Err(msg_missing_argument(t))
            } else {
                parse_from(args, i + 2, expecting_bracket, false, depth,
                    list_push_leaf(acc, wrap(invert, Node::Pred { flag: t, arg: args[i + 1] })))
            }
        } else if t == "-not"@ || t == "!"@ {
            if !more_expressions(args, i) {
                Err(msg_expected_expression(t))
            } else {
                parse_from(args, i + 1, expecting_bracket, true, depth, acc)
            }
        } else if t == "-or"@ || t == "-o"@ {
            if !more_expressions(args, i) {
                Err(msg_expected_expression(t))
            } else if list_last_empty(acc) {
                Err(msg_binary_operator(t))
            } else {
                parse_from(args, i + 1, expecting_bracket, invert, depth,
                    list_open_branch(acc))
            }
        } else if t == ","@ {
            if !more_expressions(args, i) {
                Err(msg_expected_expression(t))
            } else if list_last_empty(acc) {
                Err(msg_binary_operator(","@))
            } else {
                parse_from(args, i + 1, expecting_bracket, invert, depth,
                    list_open_statement(acc))
            }
        } else if t == "("@ {
            match parse_from(args, i + 1, true, false, false, empty_list()) {
                Err(m) => Err(m),
                Ok((j, sub, d2)) => {
                    let next = if j < i + 1 { i + 2 } else { j + 1 };
                    parse_from(args, next, expecting_bracket, false, depth || d2,
                        list_push_leaf(acc, wrap(invert, sub)))
                },
            }
        } else if t == ")"@ {
            if !expecting_bracket {
                Err(msg_too_many_closing())
            } else {
                Ok((i, acc, depth))
            }
        } else if t == "-d"@ || t == "-depth"@ {
            parse_from(args, i + 1, expecting_bracket, invert, true, acc)
        } else {
            Err(msg_unrecognized(t))
        }
    }
}

/// The parse of a whole token sequence.
pub open spec fn parse_args(args: Seq<Seq<char>>) -> Result<(int, Node, bool), Seq<char>> {
    parse_from(args, 0, false, false, false, empty_list())
}

/// Default-print injection: a tree that could not print anything is wrapped
/// in a conjunction with a print leaf, so that a plain predicate expression
/// still reports its matches; a tree with its own side effects is unchanged.
pub open spec fn inject_print(tree: Node) -> Node {
    if !node_effects(tree) {
        Node::And(seq![tree, Node::Print])
    } else {
        tree
    }
}

/// What compiling a token sequence yields: the effective root, or the error.
pub open spec fn build_spec(args: Seq<Seq<char>>) -> Result<Node, Seq<char>> {
    match parse_args(args) {
        Ok((j, tree, d)) => Ok(inject_print(tree)),
        Err(m) => Err(m),
    }
}

/// A level entered through an opening group stops, when it succeeds, on a
/// closing-group token inside the sequence.
pub proof fn lemma_parse_close(args: Seq<Seq<char>>, i: int, invert: bool, depth: bool, acc: Node)
    requires
        0 <= i,
    ensures
        parse_from(args, i, true, invert, depth, acc) matches Ok(o)
            ==> i <= o.0 < args.len() && args[o.0] == ")"@,
    decreases remaining(args, i),
{
    if 0 <= i && i < args.len() {
        let t = args[i];
        if t == "-print"@ {
            lemma_parse_close(args, i + 1, false, depth,
                list_push_leaf(acc, wrap(invert, Node::Print)));
        } else if t == "-true"@ {
            lemma_parse_close(args, i + 1, false, depth,
                list_push_leaf(acc, wrap(invert, Node::True)));
        } else if t == "-false"@ {
            lemma_parse_close(args, i + 1, false, depth,
                list_push_leaf(acc, wrap(invert, Node::False)));
        } else if t == "-name"@ || t == "-iname"@ || t == "-type"@ {
            if i < args.len() - 1 {
                lemma_parse_close(args, i + 2, false, depth,
                    list_push_leaf(acc, wrap(invert, Node::Pred { flag: t, arg: args[i + 1] })));
            }
        } else if t == "-not"@ || t == "!"@ {
            lemma_parse_close(args, i + 1, true, depth, acc);
        } else if t == "-or"@ || t == "-o"@ {
            lemma_parse_close(args, i + 1, invert, depth, list_open_branch(acc));
        } else if t == ","@ {
            lemma_parse_close(args, i + 1, invert, depth, list_open_statement(acc));
        } else if t == "("@ {
            lemma_parse_close(args, i + 1, false, false, empty_list());
            match parse_from(args, i + 1, true, false, false, empty_list()) {
                Err(m) => {},
                Ok((j, sub, d2)) => {
                    let next = if j < i + 1 { i + 2 } else { j + 1 };
                    lemma_parse_close(args, next, false, depth || d2,
                        list_push_leaf(acc, wrap(invert, sub)));
                },
            }
        } else if t == ")"@ {
        } else if t == "-d"@ || t == "-depth"@ {
            lemma_parse_close(args, i + 1, invert, true, acc);
        }
    }
}

/// Helper for `build_matcher_tree`: whether an expression follows token
/// `index`.
pub fn are_more_expressions(args: &[&str], index: usize) -> (r: bool)
    requires
        index < args@.len(),
    ensures
        r == more_expressions(views_of(args@), index as int),
{
    index < args.len() - 1 && !str_eq(args[index + 1], ")")
}

/// One recursion level of the builder, from `arg_index` on.  Returns the
/// index it stopped at and the built statement list, exactly as the
/// mathematical parser says, or its error.  On success the configuration's
/// depth-first flag is set iff it was set before or a depth token was seen.
fn build_matcher_tree(
    args: &[&str],
    config: &mut Config,
    arg_index: usize,
    expecting_bracket: bool,
) -> (res: Result<(usize, Box<Matcher>), BuildError>)
    requires
        args@.len() < usize::MAX,
        arg_index <= args@.len(),
    ensures
        ({
            let sres = parse_from(views_of(args@), arg_index as int, expecting_bracket, false,
                false, empty_list());
            &&& (sres matches Ok(o) ==> res matches Ok(r) && r.0 as int == o.0
                && (*r.1)@ == o.1
                && final(config).depth_first == (old(config).depth_first || o.2))
            &&& (sres matches Err(m) ==> res matches Err(e) && e@ == m)
            &&& (old(config).depth_first ==> final(config).depth_first)
        }),
    decreases args@.len() - arg_index,
{
    let ghost argsv = views_of(args@);
    let mut top_level_matcher = ListMatcher::new();
    let mut i: usize = arg_index;
    let mut invert_next_matcher = false;
    let ghost mut depth_seen = false;
    while i < args.len()
        invariant
            args@.len() < usize::MAX,
            argsv == views_of(args@),
            argsv.len() == args@.len(),
            forall|k: int| 0 <= k < argsv.len() ==> argsv[k] == args@[k]@,
            arg_index <= i <= args@.len(),
            top_level_matcher.wf(),
            config.depth_first == (old(config).depth_first || depth_seen),
            parse_from(argsv, arg_index as int, expecting_bracket, false, false, empty_list())
                == parse_from(argsv, i as int, expecting_bracket, invert_next_matcher,
                    depth_seen, top_level_matcher@),
        decreases args@.len() - i,
    {
        let ghost i0 = i as int;
        let ghost inv0 = invert_next_matcher;
        let ghost d0 = depth_seen;
        let ghost acc0 = top_level_matcher@;
        let t = args[i];
        proof {
            assert(argsv[i0] == t@);
        }
        let mut possible_submatcher: Option<Box<Matcher>> = None;
        if str_eq(t, "-print") {
            possible_submatcher = Some(Printer::new_box());
            proof {
                assert(parse_from(argsv, i0, expecting_bracket, inv0, d0, acc0)
                    == parse_from(argsv, i0 + 1, expecting_bracket, false, d0,
                        list_push_leaf(acc0, wrap(inv0, Node::Print))));
            }
        } else if str_eq(t, "-true") {
            possible_submatcher = Some(Box::new(Matcher::True(TrueMatcher {})));
            proof {
                assert(parse_from(argsv, i0, expecting_bracket, inv0, d0, acc0)
                    == parse_from(argsv, i0 + 1, expecting_bracket, false, d0,
                        list_push_leaf(acc0, wrap(inv0, Node::True))));
            }
        } else if str_eq(t, "-false") {
            possible_submatcher = Some(Box::new(Matcher::False(FalseMatcher {})));
            proof {
                assert(parse_from(argsv, i0, expecting_bracket, inv0, d0, acc0)
                    == parse_from(argsv, i0 + 1, expecting_bracket, false, d0,
                        list_push_leaf(acc0, wrap(inv0, Node::False))));
            }
        } else if str_eq(t, "-name") || str_eq(t, "-iname") || str_eq(t, "-type") {
            if i >= args.len() - 1 {
                proof {
                    assert(parse_from(argsv, i0, expecting_bracket, inv0, d0, acc0)
                        == Err::<(int, Node, bool), Seq<char>>(msg_missing_argument(t@)));
                }
                return Err(BuildError::missing_argument(t));
            }
            i = i + 1;
            possible_submatcher = Some(Box::new(Matcher::Pred(PredMatcher::new(
                String::from_str(t),
                String::from_str(args[i]),
            ))));
            proof {
                assert(parse_from(argsv, i0, expecting_bracket, inv0, d0, acc0)
                    == parse_from(argsv, i0 + 2, expecting_bracket, false, d0,
                        list_push_leaf(
                            acc0,
                            wrap(inv0, Node::Pred { flag: t@, arg: argsv[i0 + 1] }),
                        )));
            }
        } else if str_eq(t, "-not") || str_eq(t, "!") {
            if !are_more_expressions(args, i) {
                proof {
                    assert(parse_from(argsv, i0, expecting_bracket, inv0, d0, acc0)
                        == Err::<(int, Node, bool), Seq<char>>(msg_expected_expression(t@)));
                }
                return Err(BuildError::expected_expression(t));
            }
            invert_next_matcher = true;
            proof {
                assert(parse_from(argsv, i0, expecting_bracket, inv0, d0, acc0)
                    == parse_from(argsv, i0 + 1, expecting_bracket, true, d0, acc0));
            }
        } else if str_eq(t, "-or") || str_eq(t, "-o") {
            if !are_more_expressions(args, i) {
                proof {
                    assert(parse_from(argsv, i0, expecting_bracket, inv0, d0, acc0)
                        == Err::<(int, Node, bool), Seq<char>>(msg_expected_expression(t@)));
                }
                return Err(BuildError::expected_expression(t));
            }
            match top_level_matcher.new_or_condition(t) {
                Ok(()) => {
                    proof {
                        assert(parse_from(argsv, i0, expecting_bracket, inv0, d0, acc0)
                            == parse_from(argsv, i0 + 1, expecting_bracket, inv0, d0,
                                list_open_branch(acc0)));
                    }
                },
                Err(e) => {
                    proof {
                        assert(parse_from(argsv, i0, expecting_bracket, inv0, d0, acc0)
                            == Err::<(int, Node, bool), Seq<char>>(msg_binary_operator(t@)));
                    }
                    return Err(e);
                },
            }
        } else if str_eq(t, ",") {
            if !are_more_expressions(args, i) {
                proof {
                    assert(parse_from(argsv, i0, expecting_bracket, inv0, d0, acc0)
                        == Err::<(int, Node, bool), Seq<char>>(msg_expected_expression(t@)));
                }
                return Err(BuildError::expected_expression(t));
            }
            match top_level_matcher.new_list_condition() {
                Ok(()) => {
                    proof {
                        assert(parse_from(argsv, i0, expecting_bracket, inv0, d0, acc0)
                            == parse_from(argsv, i0 + 1, expecting_bracket, inv0, d0,
                                list_open_statement(acc0)));
                    }
                },
                Err(e) => {
                    proof {
                        assert(parse_from(argsv, i0, expecting_bracket, inv0, d0, acc0)
                            == Err::<(int, Node, bool), Seq<char>>(msg_binary_operator(","@)));
                    }
                    return Err(e);
                },
            }
        } else if str_eq(t, "(") {
            proof {
                lemma_parse_close(argsv, i0 + 1, false, false, empty_list());
            }
            match build_matcher_tree(args, config, i + 1, true) {
                Err(e) => {
                    proof {
                        assert(parse_from(argsv, i0 + 1, true, false, false, empty_list())
                            matches Err(m) && e@ == m);
                        assert(parse_from(argsv, i0, expecting_bracket, inv0, d0, acc0)
                            == Err::<(int, Node, bool), Seq<char>>(e@));
                    }
                    return Err(e);
                },
                Ok((new_arg_index, sub_matcher)) => {
                    i = new_arg_index;
                    possible_submatcher = Some(sub_matcher);
                    proof {
                        let o = parse_from(argsv, i0 + 1, true, false, false,
                            empty_list())->Ok_0;
                        depth_seen = d0 || o.2;
                        assert(parse_from(argsv, i0, expecting_bracket, inv0, d0, acc0)
                            == parse_from(argsv, o.0 + 1, expecting_bracket, false,
                                d0 || o.2, list_push_leaf(acc0, wrap(inv0, o.1))));
                    }
                },
            }
        } else if str_eq(t, ")") {
            if !expecting_bracket {
                proof {
                    assert(parse_from(argsv, i0, expecting_bracket, inv0, d0, acc0)
                        == Err::<(int, Node, bool), Seq<char>>(msg_too_many_closing()));
                }
                return Err(BuildError::too_many_closing());
            }
            proof {
                assert(parse_from(argsv, i0, expecting_bracket, inv0, d0, acc0)
                    == Ok::<(int, Node, bool), Seq<char>>((i0, acc0, d0)));
            }
            return Ok((i, Box::new(Matcher::List(top_level_matcher))));
        } else if str_eq(t, "-d") || str_eq(t, "-depth") {
            config.depth_first = true;
            proof {
                depth_seen = true;
                assert(parse_from(argsv, i0, expecting_bracket, inv0, d0, acc0)
                    == parse_from(argsv, i0 + 1, expecting_bracket, inv0, true, acc0));
            }
        } else {
            proof {
                assert(parse_from(argsv, i0, expecting_bracket, inv0, d0, acc0)
                    == Err::<(int, Node, bool), Seq<char>>(msg_unrecognized(t@)));
            }
            return Err(BuildError::unrecognized(t));
        }
        if let Some(submatcher) = possible_submatcher {
            if invert_next_matcher {
                top_level_matcher.new_and_condition(Box::new(Matcher::Not(NotMatcher::new(
                    submatcher,
                ))));
                invert_next_matcher = false;
            } else {
                top_level_matcher.new_and_condition(submatcher);
            }
        }
        i = i + 1;
    }
    if expecting_bracket {
        proof {
            assert(parse_from(argsv, i as int, expecting_bracket, invert_next_matcher,
                depth_seen, top_level_matcher@)
                == Err::<(int, Node, bool), Seq<char>>(msg_expected_closing()));
        }
        return Err(BuildError::expected_closing());
    }
    proof {
        assert(parse_from(argsv, i as int, expecting_bracket, invert_next_matcher, depth_seen,
            top_level_matcher@)
            == Ok::<(int, Node, bool), Seq<char>>((i as int, top_level_matcher@, depth_seen)));
    }
    Ok((i, Box::new(Matcher::List(top_level_matcher))))
}

/// Compiles the predicate arguments into the effective root matcher: the
/// built statement list, wrapped with a default print leaf when nothing in
/// it could print.  On success the configuration's depth-first flag is set
/// iff it was set before or a `-d`/`-depth` token occurred; every failure
/// carries the exact message the parse gives.
pub fn build_top_level_matcher(args: &[&str], config: &mut Config) -> (res: Result<
    Box<Matcher>,
    BuildError,
>)
    requires
        args@.len() < usize::MAX,
    ensures
        ({
            let sres = build_spec(views_of(args@));
            &&& (sres matches Ok(tree) ==> res matches Ok(m) && (*m)@ == tree
                && final(config).depth_first == (old(config).depth_first
                    || parse_args(views_of(args@))->Ok_0.2))
            &&& (sres matches Err(msg) ==> res matches Err(e) && e@ == msg)
            &&& (old(config).depth_first ==> final(config).depth_first)
        }),
{
    match build_matcher_tree(args, config, 0, false) {
        Err(e) => Err(e),
        Ok((_new_index, top_level_matcher)) => {
            // if the matcher has no side effects, then we default to printing
            if !top_level_matcher.has_side_effects() {
                let ghost tree = (*top_level_matcher)@;
                let mut new_and_matcher = AndMatcher::new();
                new_and_matcher.new_and_condition(top_level_matcher);
                new_and_matcher.new_and_condition(Printer::new_box());
                proof {
                    assert(new_and_matcher@->And_0 =~= seq![tree, Node::Print]);
                }
                Ok(Box::new(Matcher::And(new_and_matcher)))
            } else {
                Ok(top_level_matcher)
            }
        },
    }
}

} // verus!
