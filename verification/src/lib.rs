//! A compact, queryable in-memory representation of GraphQL type-system
//! documents: interned strings, per-kind arenas addressed by typed handles,
//! a write-only builder, read-only views, a canonical printer, and a parser.

use vstd::prelude::*;

pub mod ids;
pub mod intern;
pub mod ast;
pub mod builder;
pub mod readers;
pub mod laws;
pub mod text;
pub mod printer;
pub mod parser;

verus! {

/// A source byte range, attached to definition-level nodes for diagnostics.
#[derive(Clone, Copy, PartialEq, Eq, Structural, Debug)]
pub struct Span {
    pub start: usize,
    pub end: usize,
}

impl Span {
    /// A span covering the half-open byte range `start..end`.
    pub fn new(start: usize, end: usize) -> (r: Span)
        ensures
            r.start == start,
            r.end == end,
    {
        Span { start, end }
    }
}

} // verus!
