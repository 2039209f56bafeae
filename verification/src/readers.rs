//! The read-only view layer: a reader pairs a node handle with a reference
//! to the whole document and resolves handles on demand. Readers never
//! mutate, and given a well-formed document no accessor can fail.

use vstd::prelude::*;
use crate::ast::Ast;

pub mod objects;
pub mod interfaces;
pub mod fields;
pub mod input_values;
pub mod directives;

verus! {

/// A handle paired with the document it belongs to; the seed of every
/// reader.
#[derive(Clone, Copy)]
pub struct ReadContext<'a, I> {
    pub document: &'a Ast,
    pub id: I,
}

} // verus!
