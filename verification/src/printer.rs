//! The print action: a matcher that records the entry's path on the output
//! sink and always matches.

use vstd::prelude::*;

use crate::entry::{Output, PathInfo};
use crate::matchers::Matcher;
use crate::model::{node_matches, node_output, Node};

verus! {

/// This matcher just records the name of the file on the output sink.
#[derive(Debug)]
pub struct Printer {}

impl View for Printer {
    type V = Node;

    open spec fn view(&self) -> Node {
        Node::Print
    }
}

impl Printer {
    pub fn new() -> (m: Printer)
        ensures
            m@ == Node::Print,
    {
        Printer {}
    }

    pub fn new_box() -> (m: Box<Matcher>)
        ensures
            (*m)@ == Node::Print,
    {
        Box::new(Matcher::Print(Printer::new()))
    }

    /// Prints the entry's path and matches.
    pub fn matches(&self, file_info: &PathInfo, out: &mut Output) -> (r: bool)
        ensures
            r == node_matches(self@, file_info@),
            final(out)@ == old(out)@ + node_output(self@, file_info@),
    {
        out.record(file_info.path().as_str());
        proof {
            assert(final(out)@ =~= old(out)@ + node_output(self@, file_info@));
        }
        true
    }

    /// Printing is a side effect.
    pub fn has_side_effects(&self) -> (r: bool)
        ensures
            r == crate::model::node_effects(self@),
    {
        true
    }
}

} // verus!
