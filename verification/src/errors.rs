//! Build-time errors.  All errors are raised while the expression is
//! compiled, never during evaluation, and each carries one of the exact
//! messages below.

use vstd::prelude::*;

verus! {

pub open spec fn msg_missing_argument(flag: Seq<char>) -> Seq<char> {
    "missing argument to "@ + flag
}

pub open spec fn msg_expected_expression(flag: Seq<char>) -> Seq<char> {
    "expected an expression after "@ + flag
}

pub open spec fn msg_binary_operator(op: Seq<char>) -> Seq<char> {
    "invalid expression; you have used a binary operator '"@ + op
        + "' with nothing before it."@
}

pub open spec fn msg_too_many_closing() -> Seq<char> {
    "you have too many ')'"@
}

pub open spec fn msg_expected_closing() -> Seq<char> {
    "invalid expression; I was expecting to find a ')' somewhere but did not see one."@
}

pub open spec fn msg_unrecognized(flag: Seq<char>) -> Seq<char> {
    "Unrecognized flag: '"@ + flag + "'"@
}

/// A fatal error from compiling an expression; its view is its message.
#[derive(Debug)]
pub struct BuildError {
    msg: String,
}

impl View for BuildError {
    type V = Seq<char>;

    closed spec fn view(&self) -> Seq<char> {
        self.msg@
    }
}

impl BuildError {
    pub fn missing_argument(flag: &str) -> (e: BuildError)
        ensures
            e@ == msg_missing_argument(flag@),
    {
        let mut msg = String::from_str("missing argument to ");
        msg.append(flag);
        BuildError { msg }
    }

    pub fn expected_expression(flag: &str) -> (e: BuildError)
        ensures
            e@ == msg_expected_expression(flag@),
    {
        let mut msg = String::from_str("expected an expression after ");
        msg.append(flag);
        BuildError { msg }
    }

    pub fn binary_operator(op: &str) -> (e: BuildError)
        ensures
            e@ == msg_binary_operator(op@),
    {
        let mut msg = String::from_str("invalid expression; you have used a binary operator '");
        msg.append(op);
        msg.append("' with nothing before it.");
        BuildError { msg }
    }

    pub fn too_many_closing() -> (e: BuildError)
        ensures
            e@ == msg_too_many_closing(),
    {
        BuildError { msg: String::from_str("you have too many ')'") }
    }

    pub fn expected_closing() -> (e: BuildError)
        ensures
            e@ == msg_expected_closing(),
    {
        BuildError {
            msg: String::from_str(
                "invalid expression; I was expecting to find a ')' somewhere but did not see one.",
            ),
        }
    }

    pub fn unrecognized(flag: &str) -> (e: BuildError)
        ensures
            e@ == msg_unrecognized(flag@),
    {
        let mut msg = String::from_str("Unrecognized flag: '");
        msg.append(flag);
        msg.append("'");
        BuildError { msg }
    }

    /// The error's message.
    pub fn description(&self) -> (r: &str)
        ensures
            r@ == self@,
    {
        self.msg.as_str()
    }
}

} // verus!
