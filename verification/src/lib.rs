//! A `find`-style expression engine: a recursive-descent compiler from flat
//! command-line tokens to a boolean matcher tree, and the combinators that
//! evaluate such a tree once per filesystem entry, with exact short-circuit
//! and print-ordering semantics.

pub mod builder;
pub mod entry;
pub mod errors;
pub mod laws;
pub mod matchers;
pub mod model;
pub mod printer;
pub mod text;
