//! The string table: deduplicating storage for all identifier and literal
//! text, addressed by dense indices in insertion order of first occurrence.
//!
//! The table itself is `indexmap::IndexSet`, kept behind a small set of
//! trusted wrappers; everything stated of it is over `interner_strings`, the
//! sequence of texts it holds in order.

use vstd::prelude::*;
use std::collections::hash_map::RandomState;

verus! {

#[verifier::external_type_specification]
#[verifier::external_body]
#[verifier::reject_recursive_types(T)]
#[verifier::reject_recursive_types(S)]
pub struct ExIndexSet<T, S>(indexmap::IndexSet<T, S>);

/// The texts held by a string table, in insertion order of first occurrence.
pub uninterp spec fn interner_strings(s: indexmap::IndexSet<String, RandomState>) -> Seq<Seq<char>>;

/// Relies on indexmap::IndexSet::new: creates a set holding nothing.
#[verifier::external_body]
pub(crate) fn interner_new() -> (r: indexmap::IndexSet<String, RandomState>)
    ensures
        interner_strings(r) == Seq::<Seq<char>>::empty(),
{
    indexmap::IndexSet::new()
}

/// Relies on indexmap::IndexSet::insert_full: for a value already present it
/// returns the index of the existing value and false, changing nothing; for a
/// new value it appends it at the end and returns its index and true.
#[verifier::external_body]
pub(crate) fn interner_insert(
    s: &mut indexmap::IndexSet<String, RandomState>,
    value: String,
) -> (r: (usize, bool))
    ensures
        r.0 < interner_strings(*final(s)).len(),
        interner_strings(*final(s))[r.0 as int] == value@,
        r.1 == !interner_strings(*old(s)).contains(value@),
        r.1 ==> interner_strings(*final(s)) == interner_strings(*old(s)).push(value@)
            && r.0 == interner_strings(*old(s)).len(),
        !r.1 ==> interner_strings(*final(s)) == interner_strings(*old(s)),
        forall|j: int|
            0 <= j < interner_strings(*old(s)).len()
                && interner_strings(*old(s))[j] == value@ ==> r.0 == j,
{
    s.insert_full(value)
}

/// Relies on indexmap::IndexSet::get_index: returns the value stored at the
/// index, or None when the index is out of range.
#[verifier::external_body]
pub(crate) fn interner_get(
    s: &indexmap::IndexSet<String, RandomState>,
    index: usize,
) -> (r: Option<&str>)
    ensures
        index < interner_strings(*s).len() ==> (match r {
            Some(t) => t@ == interner_strings(*s)[index as int],
            None => false,
        }),
        index >= interner_strings(*s).len() ==> r matches None,
{
    s.get_index(index).map(|v| v.as_str())
}

} // verus!
