//! Typed handles into a document's per-kind arenas.
//!
//! A handle is a plain index, but each node kind gets its own nominal type so
//! that, for example, a `FieldDefinitionId` can never be used where an
//! `ArgumentId` is expected. Handles are minted only by the builder, are
//! never reused, and stay valid for the lifetime of the document.

use vstd::prelude::*;

verus! {

/// Handle of one interned string.
#[derive(Clone, Copy, PartialEq, Eq, Structural, Debug)]
pub struct StringId(pub usize);

/// Handle of one entry in the ordered top-level definition index.
#[derive(Clone, Copy, PartialEq, Eq, Structural, Debug)]
pub struct DefinitionId(pub usize);

/// Handle of one `schema { ... }` definition.
#[derive(Clone, Copy, PartialEq, Eq, Structural, Debug)]
pub struct SchemaDefinitionId(pub usize);

/// Handle of one scalar type definition.
#[derive(Clone, Copy, PartialEq, Eq, Structural, Debug)]
pub struct ScalarDefinitionId(pub usize);

/// Handle of one object type definition.
#[derive(Clone, Copy, PartialEq, Eq, Structural, Debug)]
pub struct ObjectDefinitionId(pub usize);

/// Handle of one interface type definition.
#[derive(Clone, Copy, PartialEq, Eq, Structural, Debug)]
pub struct InterfaceDefinitionId(pub usize);

/// Handle of one union type definition.
#[derive(Clone, Copy, PartialEq, Eq, Structural, Debug)]
pub struct UnionDefinitionId(pub usize);

/// Handle of one enum type definition.
#[derive(Clone, Copy, PartialEq, Eq, Structural, Debug)]
pub struct EnumDefinitionId(pub usize);

/// Handle of one enum member.
#[derive(Clone, Copy, PartialEq, Eq, Structural, Debug)]
pub struct EnumValueDefinitionId(pub usize);

/// Handle of one input object type definition.
#[derive(Clone, Copy, PartialEq, Eq, Structural, Debug)]
pub struct InputObjectDefinitionId(pub usize);

/// Handle of one field definition on an object or interface.
#[derive(Clone, Copy, PartialEq, Eq, Structural, Debug)]
pub struct FieldDefinitionId(pub usize);

/// Handle of one argument or input-object field definition.
#[derive(Clone, Copy, PartialEq, Eq, Structural, Debug)]
pub struct InputValueDefinitionId(pub usize);

/// Handle of one type reference.
#[derive(Clone, Copy, PartialEq, Eq, Structural, Debug)]
pub struct TypeId(pub usize);

/// Handle of one literal value.
#[derive(Clone, Copy, PartialEq, Eq, Structural, Debug)]
pub struct ValueId(pub usize);

/// Handle of one directive occurrence.
#[derive(Clone, Copy, PartialEq, Eq, Structural, Debug)]
pub struct DirectiveId(pub usize);

/// Handle of one `name: value` argument.
#[derive(Clone, Copy, PartialEq, Eq, Structural, Debug)]
pub struct ArgumentId(pub usize);

/// Handle of one string literal token.
#[derive(Clone, Copy, PartialEq, Eq, Structural, Debug)]
pub struct StringLiteralId(pub usize);

} // verus!
