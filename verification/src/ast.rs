//! The document representation: one append-only arena per node kind, nodes
//! referencing each other by typed handles only, plus an ordered index of
//! top-level definitions.
//!
//! `AstView` is the mathematical model of a document: every arena as a
//! sequence, the string table as the sequence of its texts. `AstView::wf`
//! states the structural invariant that every stored handle is in range of
//! its target arena and that a value's children precede it, so that lookups
//! never fail and traversals terminate.

use vstd::prelude::*;
use crate::ids::{
    StringId, DefinitionId, SchemaDefinitionId, ScalarDefinitionId, ObjectDefinitionId,
    InterfaceDefinitionId, UnionDefinitionId, EnumDefinitionId, EnumValueDefinitionId,
    InputObjectDefinitionId, FieldDefinitionId, InputValueDefinitionId, TypeId, ValueId,
    DirectiveId, ArgumentId, StringLiteralId,
};
use crate::intern::interner_strings;
use crate::Span;
use std::collections::hash_map::RandomState;

verus! {

/// One entry of the top-level definition index: the kind of the definition
/// and its handle into that kind's arena.
#[derive(Clone, Copy, PartialEq, Eq, Structural, Debug)]
pub enum AstDefinition {
    Schema(SchemaDefinitionId),
    Scalar(ScalarDefinitionId),
    Object(ObjectDefinitionId),
    Interface(InterfaceDefinitionId),
    Union(UnionDefinitionId),
    Enum(EnumDefinitionId),
    InputObject(InputObjectDefinitionId),
}

/// A `schema { ... }` block: its root operation types in source order.
pub struct SchemaDefinition {
    pub description: Option<StringId>,
    pub roots: Vec<RootOperationTypeDefinition>,
}

/// A scalar type declaration.
pub struct ScalarDefinition {
    pub name: StringId,
    pub description: Option<StringId>,
    pub directives: Vec<DirectiveId>,
    pub span: Span,
}

/// An object type declaration.
pub struct ObjectDefinition {
    pub name: StringId,
    pub description: Option<StringId>,
    pub fields: Vec<FieldDefinitionId>,
    pub directives: Vec<DirectiveId>,
    pub implements: Vec<StringId>,
    pub span: Span,
}

/// A field on an object or interface.
pub struct FieldDefinition {
    pub name: StringId,
    pub ty: TypeId,
    pub arguments: Vec<InputValueDefinitionId>,
    pub description: Option<StringId>,
    pub directives: Vec<DirectiveId>,
    pub span: Span,
}

/// An interface type declaration.
pub struct InterfaceDefinition {
    pub name: StringId,
    pub description: Option<StringId>,
    pub fields: Vec<FieldDefinitionId>,
    pub directives: Vec<DirectiveId>,
    pub implements: Vec<StringId>,
    pub span: Span,
}

/// A union type declaration: its member type names in source order.
pub struct UnionDefinition {
    pub name: StringId,
    pub description: Option<StringId>,
    pub members: Vec<StringId>,
    pub directives: Vec<DirectiveId>,
    pub span: Span,
}

/// An enum type declaration.
pub struct EnumDefinition {
    pub name: StringId,
    pub description: Option<StringId>,
    pub values: Vec<EnumValueDefinitionId>,
    pub directives: Vec<DirectiveId>,
    pub span: Span,
}

/// One member of an enum declaration.
pub struct EnumValueDefinition {
    pub value: StringId,
    pub description: Option<StringId>,
    pub directives: Vec<DirectiveId>,
    pub span: Span,
}

/// An input object type declaration.
pub struct InputObjectDefinition {
    pub name: StringId,
    pub description: Option<StringId>,
    pub fields: Vec<InputValueDefinitionId>,
    pub directives: Vec<DirectiveId>,
    pub span: Span,
}

/// An argument or input-object field: a name, a type, and an optional
/// default value.
pub struct InputValueDefinition {
    pub name: StringId,
    pub ty: TypeId,
    pub description: Option<StringId>,
    pub default: Option<ValueId>,
    pub directives: Vec<DirectiveId>,
    pub span: Span,
}

/// One `operation: TypeName` entry of a schema definition.
pub struct RootOperationTypeDefinition {
    pub operation_type: OperationType,
    pub named_type: StringId,
}

/// A type reference: a named inner type plus its wrapping operators, ordered
/// innermost-first (the first wrapper is the one closest to the name).
pub struct Type {
    pub name: StringId,
    pub wrappers: Vec<WrappingType>,
}

/// A wrapping operator on a type reference.
#[derive(Clone, Copy, PartialEq, Eq, Structural, Debug)]
pub enum WrappingType {
    NonNull,
    List,
}

/// The operation kind of a schema root.
#[derive(Clone, Copy, PartialEq, Eq, Structural, Debug)]
pub enum OperationType {
    Query,
    Mutation,
    Subscription,
}

impl OperationType {
    /// The keyword this operation kind is written as.
    pub fn as_str(&self) -> (r: &'static str)
        ensures
            r@ == operation_type_text(*self),
    {
        match self {
            OperationType::Query => "query",
            OperationType::Mutation => "mutation",
            OperationType::Subscription => "subscription",
        }
    }
}

/// The keyword of an operation kind.
pub open spec fn operation_type_text(op: OperationType) -> Seq<char> {
    match op {
        OperationType::Query => "query"@,
        OperationType::Mutation => "mutation"@,
        OperationType::Subscription => "subscription"@,
    }
}

/// A string literal token, remembering whether it was written with normal or
/// block (triple-quoted) quoting so re-printing can reproduce the style.
#[derive(Clone, Copy, PartialEq, Eq, Structural, Debug)]
pub enum StringLiteral {
    Normal(StringId),
    Block(StringId),
}

/// A `@name(args...)` occurrence.
pub struct Directive {
    pub name: StringId,
    pub arguments: Vec<ArgumentId>,
}

/// One `name: value` pair inside a directive application.
pub struct Argument {
    pub name: StringId,
    pub value: ValueId,
}

/// A literal or reference value. Nested values recurse through handles only;
/// a float literal is kept as its interned source text, so the core stays
/// free of machine floating point.
pub enum Value {
    Variable(StringId),
    Int(i32),
    Float(StringId),
    String(StringId),
    Boolean(bool),
    Null,
    Enum(StringId),
    List(Vec<ValueId>),
    Object(Vec<(StringId, ValueId)>),
}

/// A frozen document: the string table, every per-kind arena, and the
/// ordered top-level definition index. All construction goes through
/// `AstBuilder`; afterwards the document is only read. The fields are
/// public so that public contracts can speak of them; the frozen phase
/// rests on no method mutating a document, so holders of a shared document
/// must not write the fields directly.
pub struct Ast {
    pub strings: indexmap::IndexSet<String, RandomState>,

    pub definitions: Vec<AstDefinition>,

    pub schema_definitions: Vec<SchemaDefinition>,
    pub scalar_definitions: Vec<ScalarDefinition>,
    pub object_definitions: Vec<ObjectDefinition>,
    pub interface_definitions: Vec<InterfaceDefinition>,
    pub union_definitions: Vec<UnionDefinition>,
    pub enum_definitions: Vec<EnumDefinition>,
    pub input_object_definitions: Vec<InputObjectDefinition>,

    pub field_definitions: Vec<FieldDefinition>,
    pub input_value_definitions: Vec<InputValueDefinition>,
    pub enum_value_definitions: Vec<EnumValueDefinition>,

    pub type_references: Vec<Type>,

    pub string_literals: Vec<StringLiteral>,

    pub values: Vec<Value>,
    pub directives: Vec<Directive>,
    pub arguments: Vec<Argument>,
}

/// The mathematical model of a document: each arena as a sequence, the
/// string table as the sequence of its texts.
pub ghost struct AstView {
    pub strings: Seq<Seq<char>>,
    pub definitions: Seq<AstDefinition>,
    pub schema_definitions: Seq<SchemaDefinition>,
    pub scalar_definitions: Seq<ScalarDefinition>,
    pub object_definitions: Seq<ObjectDefinition>,
    pub interface_definitions: Seq<InterfaceDefinition>,
    pub union_definitions: Seq<UnionDefinition>,
    pub enum_definitions: Seq<EnumDefinition>,
    pub input_object_definitions: Seq<InputObjectDefinition>,
    pub field_definitions: Seq<FieldDefinition>,
    pub input_value_definitions: Seq<InputValueDefinition>,
    pub enum_value_definitions: Seq<EnumValueDefinition>,
    pub type_references: Seq<Type>,
    pub string_literals: Seq<StringLiteral>,
    pub values: Seq<Value>,
    pub directives: Seq<Directive>,
    pub arguments: Seq<Argument>,
}

impl View for Ast {
    type V = AstView;

    open spec fn view(&self) -> AstView {
        AstView {
            strings: interner_strings(self.strings),
            definitions: self.definitions@,
            schema_definitions: self.schema_definitions@,
            scalar_definitions: self.scalar_definitions@,
            object_definitions: self.object_definitions@,
            interface_definitions: self.interface_definitions@,
            union_definitions: self.union_definitions@,
            enum_definitions: self.enum_definitions@,
            input_object_definitions: self.input_object_definitions@,
            field_definitions: self.field_definitions@,
            input_value_definitions: self.input_value_definitions@,
            enum_value_definitions: self.enum_value_definitions@,
            type_references: self.type_references@,
            string_literals: self.string_literals@,
            values: self.values@,
            directives: self.directives@,
            arguments: self.arguments@,
        }
    }
}

/// The empty document model: every arena empty.
pub open spec fn empty_ast_view() -> AstView {
    AstView {
        strings: Seq::empty(),
        definitions: Seq::empty(),
        schema_definitions: Seq::empty(),
        scalar_definitions: Seq::empty(),
        object_definitions: Seq::empty(),
        interface_definitions: Seq::empty(),
        union_definitions: Seq::empty(),
        enum_definitions: Seq::empty(),
        input_object_definitions: Seq::empty(),
        field_definitions: Seq::empty(),
        input_value_definitions: Seq::empty(),
        enum_value_definitions: Seq::empty(),
        type_references: Seq::empty(),
        string_literals: Seq::empty(),
        values: Seq::empty(),
        directives: Seq::empty(),
        arguments: Seq::empty(),
    }
}

pub open spec fn string_ok(id: StringId, v: AstView) -> bool {
    id.0 < v.strings.len()
}

pub open spec fn opt_string_ok(d: Option<StringId>, v: AstView) -> bool {
    match d {
        Some(id) => string_ok(id, v),
        None => true,
    }
}

pub open spec fn string_list_ok(ids: Seq<StringId>, v: AstView) -> bool {
    forall|i: int| 0 <= i < ids.len() ==> string_ok(#[trigger] ids[i], v)
}

pub open spec fn directive_list_ok(ids: Seq<DirectiveId>, v: AstView) -> bool {
    forall|i: int| 0 <= i < ids.len() ==> (#[trigger] ids[i]).0 < v.directives.len()
}

pub open spec fn field_list_ok(ids: Seq<FieldDefinitionId>, v: AstView) -> bool {
    forall|i: int| 0 <= i < ids.len() ==> (#[trigger] ids[i]).0 < v.field_definitions.len()
}

pub open spec fn input_value_list_ok(ids: Seq<InputValueDefinitionId>, v: AstView) -> bool {
    forall|i: int| 0 <= i < ids.len() ==> (#[trigger] ids[i]).0 < v.input_value_definitions.len()
}

pub open spec fn enum_value_list_ok(ids: Seq<EnumValueDefinitionId>, v: AstView) -> bool {
    forall|i: int| 0 <= i < ids.len() ==> (#[trigger] ids[i]).0 < v.enum_value_definitions.len()
}

pub open spec fn argument_list_ok(ids: Seq<ArgumentId>, v: AstView) -> bool {
    forall|i: int| 0 <= i < ids.len() ==> (#[trigger] ids[i]).0 < v.arguments.len()
}

pub open spec fn root_list_ok(roots: Seq<RootOperationTypeDefinition>, v: AstView) -> bool {
    forall|i: int| 0 <= i < roots.len() ==> string_ok((#[trigger] roots[i]).named_type, v)
}

pub open spec fn schema_definition_wf(d: SchemaDefinition, v: AstView) -> bool {
    opt_string_ok(d.description, v) && root_list_ok(d.roots@, v)
}

pub open spec fn scalar_definition_wf(d: ScalarDefinition, v: AstView) -> bool {
    string_ok(d.name, v) && opt_string_ok(d.description, v) && directive_list_ok(d.directives@, v)
}

pub open spec fn object_definition_wf(d: ObjectDefinition, v: AstView) -> bool {
    &&& string_ok(d.name, v)
    &&& opt_string_ok(d.description, v)
    &&& field_list_ok(d.fields@, v)
    &&& directive_list_ok(d.directives@, v)
    &&& string_list_ok(d.implements@, v)
}

pub open spec fn interface_definition_wf(d: InterfaceDefinition, v: AstView) -> bool {
    &&& string_ok(d.name, v)
    &&& opt_string_ok(d.description, v)
    &&& field_list_ok(d.fields@, v)
    &&& directive_list_ok(d.directives@, v)
    &&& string_list_ok(d.implements@, v)
}

pub open spec fn union_definition_wf(d: UnionDefinition, v: AstView) -> bool {
    &&& string_ok(d.name, v)
    &&& opt_string_ok(d.description, v)
    &&& string_list_ok(d.members@, v)
    &&& directive_list_ok(d.directives@, v)
}

pub open spec fn enum_definition_wf(d: EnumDefinition, v: AstView) -> bool {
    &&& string_ok(d.name, v)
    &&& opt_string_ok(d.description, v)
    &&& enum_value_list_ok(d.values@, v)
    &&& directive_list_ok(d.directives@, v)
}

pub open spec fn enum_value_definition_wf(d: EnumValueDefinition, v: AstView) -> bool {
    &&& string_ok(d.value, v)
    &&& opt_string_ok(d.description, v)
    &&& directive_list_ok(d.directives@, v)
}

pub open spec fn input_object_definition_wf(d: InputObjectDefinition, v: AstView) -> bool {
    &&& string_ok(d.name, v)
    &&& opt_string_ok(d.description, v)
    &&& input_value_list_ok(d.fields@, v)
    &&& directive_list_ok(d.directives@, v)
}

pub open spec fn field_definition_wf(d: FieldDefinition, v: AstView) -> bool {
    &&& string_ok(d.name, v)
    &&& d.ty.0 < v.type_references.len()
    &&& input_value_list_ok(d.arguments@, v)
    &&& opt_string_ok(d.description, v)
    &&& directive_list_ok(d.directives@, v)
}

pub open spec fn input_value_definition_wf(d: InputValueDefinition, v: AstView) -> bool {
    &&& string_ok(d.name, v)
    &&& d.ty.0 < v.type_references.len()
    &&& opt_string_ok(d.description, v)
    &&& (match d.default {
        Some(id) => id.0 < v.values.len(),
        None => true,
    })
    &&& directive_list_ok(d.directives@, v)
}

pub open spec fn type_wf(t: Type, v: AstView) -> bool {
    string_ok(t.name, v)
}

pub open spec fn string_literal_wf(l: StringLiteral, v: AstView) -> bool {
    match l {
        StringLiteral::Normal(id) => string_ok(id, v),
        StringLiteral::Block(id) => string_ok(id, v),
    }
}

pub open spec fn directive_wf(d: Directive, v: AstView) -> bool {
    string_ok(d.name, v) && argument_list_ok(d.arguments@, v)
}

pub open spec fn argument_wf(a: Argument, v: AstView) -> bool {
    string_ok(a.name, v) && a.value.0 < v.values.len()
}

/// Well-formedness of the value stored at index `i`: its text handles are in
/// range and every child value handle is strictly below `i`, so nested
/// values form an acyclic, append-only structure.
pub open spec fn value_wf_at(vals: Seq<Value>, i: int, v: AstView) -> bool {
    match vals[i] {
        Value::Variable(s) => string_ok(s, v),
        Value::Int(_) => true,
        Value::Float(s) => string_ok(s, v),
        Value::String(s) => string_ok(s, v),
        Value::Boolean(_) => true,
        Value::Null => true,
        Value::Enum(s) => string_ok(s, v),
        Value::List(children) => forall|j: int|
            0 <= j < children@.len() ==> (#[trigger] children@[j]).0 < i,
        Value::Object(fields) => forall|j: int|
            0 <= j < fields@.len() ==> string_ok((#[trigger] fields@[j]).0, v) && fields@[j].1.0 < i,
    }
}

pub open spec fn definition_entry_wf(d: AstDefinition, v: AstView) -> bool {
    match d {
        AstDefinition::Schema(id) => id.0 < v.schema_definitions.len(),
        AstDefinition::Scalar(id) => id.0 < v.scalar_definitions.len(),
        AstDefinition::Object(id) => id.0 < v.object_definitions.len(),
        AstDefinition::Interface(id) => id.0 < v.interface_definitions.len(),
        AstDefinition::Union(id) => id.0 < v.union_definitions.len(),
        AstDefinition::Enum(id) => id.0 < v.enum_definitions.len(),
        AstDefinition::InputObject(id) => id.0 < v.input_object_definitions.len(),
    }
}

impl AstView {
    /// The structural invariant of a document: every stored handle refers to
    /// an element of its target arena, and value nesting is acyclic.
    pub open spec fn wf(self) -> bool {
        &&& forall|i: int| 0 <= i < self.definitions.len()
            ==> definition_entry_wf(#[trigger] self.definitions[i], self)
        &&& forall|i: int| 0 <= i < self.schema_definitions.len()
            ==> schema_definition_wf(#[trigger] self.schema_definitions[i], self)
        &&& forall|i: int| 0 <= i < self.scalar_definitions.len()
            ==> scalar_definition_wf(#[trigger] self.scalar_definitions[i], self)
        &&& forall|i: int| 0 <= i < self.object_definitions.len()
            ==> object_definition_wf(#[trigger] self.object_definitions[i], self)
        &&& forall|i: int| 0 <= i < self.interface_definitions.len()
            ==> interface_definition_wf(#[trigger] self.interface_definitions[i], self)
        &&& forall|i: int| 0 <= i < self.union_definitions.len()
            ==> union_definition_wf(#[trigger] self.union_definitions[i], self)
        &&& forall|i: int| 0 <= i < self.enum_definitions.len()
            ==> enum_definition_wf(#[trigger] self.enum_definitions[i], self)
        &&& forall|i: int| 0 <= i < self.input_object_definitions.len()
            ==> input_object_definition_wf(#[trigger] self.input_object_definitions[i], self)
        &&& forall|i: int| 0 <= i < self.field_definitions.len()
            ==> field_definition_wf(#[trigger] self.field_definitions[i], self)
        &&& forall|i: int| 0 <= i < self.input_value_definitions.len()
            ==> input_value_definition_wf(#[trigger] self.input_value_definitions[i], self)
        &&& forall|i: int| 0 <= i < self.enum_value_definitions.len()
            ==> enum_value_definition_wf(#[trigger] self.enum_value_definitions[i], self)
        &&& forall|i: int| 0 <= i < self.type_references.len()
            ==> type_wf(#[trigger] self.type_references[i], self)
        &&& forall|i: int| 0 <= i < self.string_literals.len()
            ==> string_literal_wf(#[trigger] self.string_literals[i], self)
        &&& forall|i: int| 0 <= i < self.directives.len()
            ==> directive_wf(#[trigger] self.directives[i], self)
        &&& forall|i: int| 0 <= i < self.arguments.len()
            ==> argument_wf(#[trigger] self.arguments[i], self)
        &&& forall|i: int| 0 <= i < self.values.len() ==> value_wf_at(self.values, i, self)
    }
}

/// `b` extends `a`: each arena of `b` keeps every element of `a`'s arena at
/// its old index, and the string table only grew.
pub open spec fn extends(a: AstView, b: AstView) -> bool {
    &&& a.strings.len() <= b.strings.len()
    &&& a.definitions.len() <= b.definitions.len()
        && (forall|i: int| 0 <= i < a.definitions.len()
            ==> #[trigger] b.definitions[i] == a.definitions[i])
    &&& a.schema_definitions.len() <= b.schema_definitions.len()
        && (forall|i: int| 0 <= i < a.schema_definitions.len()
            ==> #[trigger] b.schema_definitions[i] == a.schema_definitions[i])
    &&& a.scalar_definitions.len() <= b.scalar_definitions.len()
        && (forall|i: int| 0 <= i < a.scalar_definitions.len()
            ==> #[trigger] b.scalar_definitions[i] == a.scalar_definitions[i])
    &&& a.object_definitions.len() <= b.object_definitions.len()
        && (forall|i: int| 0 <= i < a.object_definitions.len()
            ==> #[trigger] b.object_definitions[i] == a.object_definitions[i])
    &&& a.interface_definitions.len() <= b.interface_definitions.len()
        && (forall|i: int| 0 <= i < a.interface_definitions.len()
            ==> #[trigger] b.interface_definitions[i] == a.interface_definitions[i])
    &&& a.union_definitions.len() <= b.union_definitions.len()
        && (forall|i: int| 0 <= i < a.union_definitions.len()
            ==> #[trigger] b.union_definitions[i] == a.union_definitions[i])
    &&& a.enum_definitions.len() <= b.enum_definitions.len()
        && (forall|i: int| 0 <= i < a.enum_definitions.len()
            ==> #[trigger] b.enum_definitions[i] == a.enum_definitions[i])
    &&& a.input_object_definitions.len() <= b.input_object_definitions.len()
        && (forall|i: int| 0 <= i < a.input_object_definitions.len()
            ==> #[trigger] b.input_object_definitions[i] == a.input_object_definitions[i])
    &&& a.field_definitions.len() <= b.field_definitions.len()
        && (forall|i: int| 0 <= i < a.field_definitions.len()
            ==> #[trigger] b.field_definitions[i] == a.field_definitions[i])
    &&& a.input_value_definitions.len() <= b.input_value_definitions.len()
        && (forall|i: int| 0 <= i < a.input_value_definitions.len()
            ==> #[trigger] b.input_value_definitions[i] == a.input_value_definitions[i])
    &&& a.enum_value_definitions.len() <= b.enum_value_definitions.len()
        && (forall|i: int| 0 <= i < a.enum_value_definitions.len()
            ==> #[trigger] b.enum_value_definitions[i] == a.enum_value_definitions[i])
    &&& a.type_references.len() <= b.type_references.len()
        && (forall|i: int| 0 <= i < a.type_references.len()
            ==> #[trigger] b.type_references[i] == a.type_references[i])
    &&& a.string_literals.len() <= b.string_literals.len()
        && (forall|i: int| 0 <= i < a.string_literals.len()
            ==> #[trigger] b.string_literals[i] == a.string_literals[i])
    &&& a.values.len() <= b.values.len()
        && (forall|i: int| 0 <= i < a.values.len() ==> #[trigger] b.values[i] == a.values[i])
    &&& a.directives.len() <= b.directives.len()
        && (forall|i: int| 0 <= i < a.directives.len()
            ==> #[trigger] b.directives[i] == a.directives[i])
    &&& a.arguments.len() <= b.arguments.len()
        && (forall|i: int| 0 <= i < a.arguments.len()
            ==> #[trigger] b.arguments[i] == a.arguments[i])
}

/// Growing a well-formed document keeps it well-formed, as long as every
/// appended node is itself well-formed against the grown document.
pub proof fn lemma_wf_extend(a: AstView, b: AstView)
    requires
        a.wf(),
        extends(a, b),
        forall|i: int| a.definitions.len() <= i < b.definitions.len()
            ==> definition_entry_wf(#[trigger] b.definitions[i], b),
        forall|i: int| a.schema_definitions.len() <= i < b.schema_definitions.len()
            ==> schema_definition_wf(#[trigger] b.schema_definitions[i], b),
        forall|i: int| a.scalar_definitions.len() <= i < b.scalar_definitions.len()
            ==> scalar_definition_wf(#[trigger] b.scalar_definitions[i], b),
        forall|i: int| a.object_definitions.len() <= i < b.object_definitions.len()
            ==> object_definition_wf(#[trigger] b.object_definitions[i], b),
        forall|i: int| a.interface_definitions.len() <= i < b.interface_definitions.len()
            ==> interface_definition_wf(#[trigger] b.interface_definitions[i], b),
        forall|i: int| a.union_definitions.len() <= i < b.union_definitions.len()
            ==> union_definition_wf(#[trigger] b.union_definitions[i], b),
        forall|i: int| a.enum_definitions.len() <= i < b.enum_definitions.len()
            ==> enum_definition_wf(#[trigger] b.enum_definitions[i], b),
        forall|i: int| a.input_object_definitions.len() <= i < b.input_object_definitions.len()
            ==> input_object_definition_wf(#[trigger] b.input_object_definitions[i], b),
        forall|i: int| a.field_definitions.len() <= i < b.field_definitions.len()
            ==> field_definition_wf(#[trigger] b.field_definitions[i], b),
        forall|i: int| a.input_value_definitions.len() <= i < b.input_value_definitions.len()
            ==> input_value_definition_wf(#[trigger] b.input_value_definitions[i], b),
        forall|i: int| a.enum_value_definitions.len() <= i < b.enum_value_definitions.len()
            ==> enum_value_definition_wf(#[trigger] b.enum_value_definitions[i], b),
        forall|i: int| a.type_references.len() <= i < b.type_references.len()
            ==> type_wf(#[trigger] b.type_references[i], b),
        forall|i: int| a.string_literals.len() <= i < b.string_literals.len()
            ==> string_literal_wf(#[trigger] b.string_literals[i], b),
        forall|i: int| a.directives.len() <= i < b.directives.len()
            ==> directive_wf(#[trigger] b.directives[i], b),
        forall|i: int| a.arguments.len() <= i < b.arguments.len()
            ==> argument_wf(#[trigger] b.arguments[i], b),
        forall|i: int| a.values.len() <= i < b.values.len() ==> value_wf_at(b.values, i, b),
    ensures
        b.wf(),
{
    assert forall|i: int| 0 <= i < b.values.len() implies value_wf_at(b.values, i, b) by {
        if i < a.values.len() {
            assert(value_wf_at(a.values, i, a));
            assert(b.values[i] == a.values[i]);
        }
    }
}

/// Interned texts are stable: every string of `a` keeps its index and text
/// in `b`. Interning only ever appends, so this holds across any run of
/// builder calls.
pub open spec fn strings_prefix(a: Seq<Seq<char>>, b: Seq<Seq<char>>) -> bool {
    a.len() <= b.len() && (forall|i: int| 0 <= i < a.len() ==> #[trigger] b[i] == a[i])
}

/// Arena lengths only grow from `a` to `b`: handles valid in `a` stay in
/// range in `b`. Weaker than `extends`, but transitive without any
/// quantifier work, which is what construction loops need.
pub open spec fn grows(a: AstView, b: AstView) -> bool {
    &&& a.strings.len() <= b.strings.len()
    &&& a.definitions.len() <= b.definitions.len()
    &&& a.schema_definitions.len() <= b.schema_definitions.len()
    &&& a.scalar_definitions.len() <= b.scalar_definitions.len()
    &&& a.object_definitions.len() <= b.object_definitions.len()
    &&& a.interface_definitions.len() <= b.interface_definitions.len()
    &&& a.union_definitions.len() <= b.union_definitions.len()
    &&& a.enum_definitions.len() <= b.enum_definitions.len()
    &&& a.input_object_definitions.len() <= b.input_object_definitions.len()
    &&& a.field_definitions.len() <= b.field_definitions.len()
    &&& a.input_value_definitions.len() <= b.input_value_definitions.len()
    &&& a.enum_value_definitions.len() <= b.enum_value_definitions.len()
    &&& a.type_references.len() <= b.type_references.len()
    &&& a.string_literals.len() <= b.string_literals.len()
    &&& a.values.len() <= b.values.len()
    &&& a.directives.len() <= b.directives.len()
    &&& a.arguments.len() <= b.arguments.len()
}

/// Patching entries of the seven top-level definition arenas in place keeps
/// a document well-formed, as long as each changed entry is well-formed
/// against the patched document and everything else is untouched.
pub proof fn lemma_wf_update_defs(a: AstView, b: AstView)
    requires
        a.wf(),
        b.strings == a.strings,
        b.definitions == a.definitions,
        b.field_definitions == a.field_definitions,
        b.input_value_definitions == a.input_value_definitions,
        b.enum_value_definitions == a.enum_value_definitions,
        b.type_references == a.type_references,
        b.string_literals == a.string_literals,
        b.values == a.values,
        b.directives == a.directives,
        b.arguments == a.arguments,
        b.schema_definitions.len() == a.schema_definitions.len(),
        b.scalar_definitions.len() == a.scalar_definitions.len(),
        b.object_definitions.len() == a.object_definitions.len(),
        b.interface_definitions.len() == a.interface_definitions.len(),
        b.union_definitions.len() == a.union_definitions.len(),
        b.enum_definitions.len() == a.enum_definitions.len(),
        b.input_object_definitions.len() == a.input_object_definitions.len(),
        forall|i: int| 0 <= i < b.schema_definitions.len()
            ==> #[trigger] b.schema_definitions[i] == a.schema_definitions[i]
                || schema_definition_wf(b.schema_definitions[i], b),
        forall|i: int| 0 <= i < b.scalar_definitions.len()
            ==> #[trigger] b.scalar_definitions[i] == a.scalar_definitions[i]
                || scalar_definition_wf(b.scalar_definitions[i], b),
        forall|i: int| 0 <= i < b.object_definitions.len()
            ==> #[trigger] b.object_definitions[i] == a.object_definitions[i]
                || object_definition_wf(b.object_definitions[i], b),
        forall|i: int| 0 <= i < b.interface_definitions.len()
            ==> #[trigger] b.interface_definitions[i] == a.interface_definitions[i]
                || interface_definition_wf(b.interface_definitions[i], b),
        forall|i: int| 0 <= i < b.union_definitions.len()
            ==> #[trigger] b.union_definitions[i] == a.union_definitions[i]
                || union_definition_wf(b.union_definitions[i], b),
        forall|i: int| 0 <= i < b.enum_definitions.len()
            ==> #[trigger] b.enum_definitions[i] == a.enum_definitions[i]
                || enum_definition_wf(b.enum_definitions[i], b),
        forall|i: int| 0 <= i < b.input_object_definitions.len()
            ==> #[trigger] b.input_object_definitions[i] == a.input_object_definitions[i]
                || input_object_definition_wf(b.input_object_definitions[i], b),
    ensures
        b.wf(),
{
    assert forall|i: int| 0 <= i < b.definitions.len()
        implies definition_entry_wf(#[trigger] b.definitions[i], b) by {
        assert(definition_entry_wf(a.definitions[i], a));
    }
    assert forall|i: int| 0 <= i < b.schema_definitions.len()
        implies schema_definition_wf(#[trigger] b.schema_definitions[i], b) by {
        assert(schema_definition_wf(a.schema_definitions[i], a));
    }
    assert forall|i: int| 0 <= i < b.scalar_definitions.len()
        implies scalar_definition_wf(#[trigger] b.scalar_definitions[i], b) by {
        assert(scalar_definition_wf(a.scalar_definitions[i], a));
    }
    assert forall|i: int| 0 <= i < b.object_definitions.len()
        implies object_definition_wf(#[trigger] b.object_definitions[i], b) by {
        assert(object_definition_wf(a.object_definitions[i], a));
    }
    assert forall|i: int| 0 <= i < b.interface_definitions.len()
        implies interface_definition_wf(#[trigger] b.interface_definitions[i], b) by {
        assert(interface_definition_wf(a.interface_definitions[i], a));
    }
    assert forall|i: int| 0 <= i < b.union_definitions.len()
        implies union_definition_wf(#[trigger] b.union_definitions[i], b) by {
        assert(union_definition_wf(a.union_definitions[i], a));
    }
    assert forall|i: int| 0 <= i < b.enum_definitions.len()
        implies enum_definition_wf(#[trigger] b.enum_definitions[i], b) by {
        assert(enum_definition_wf(a.enum_definitions[i], a));
    }
    assert forall|i: int| 0 <= i < b.input_object_definitions.len()
        implies input_object_definition_wf(#[trigger] b.input_object_definitions[i], b) by {
        assert(input_object_definition_wf(a.input_object_definitions[i], a));
    }
    assert forall|i: int| 0 <= i < b.field_definitions.len()
        implies field_definition_wf(#[trigger] b.field_definitions[i], b) by {
        assert(field_definition_wf(a.field_definitions[i], a));
    }
    assert forall|i: int| 0 <= i < b.input_value_definitions.len()
        implies input_value_definition_wf(#[trigger] b.input_value_definitions[i], b) by {
        assert(input_value_definition_wf(a.input_value_definitions[i], a));
    }
    assert forall|i: int| 0 <= i < b.enum_value_definitions.len()
        implies enum_value_definition_wf(#[trigger] b.enum_value_definitions[i], b) by {
        assert(enum_value_definition_wf(a.enum_value_definitions[i], a));
    }
    assert forall|i: int| 0 <= i < b.directives.len()
        implies directive_wf(#[trigger] b.directives[i], b) by {
        assert(directive_wf(a.directives[i], a));
    }
    assert forall|i: int| 0 <= i < b.arguments.len()
        implies argument_wf(#[trigger] b.arguments[i], b) by {
        assert(argument_wf(a.arguments[i], a));
    }
    assert forall|i: int| 0 <= i < b.values.len() implies value_wf_at(b.values, i, b) by {
        assert(value_wf_at(a.values, i, a));
    }
}

impl Ast {
    /// The text behind an interned string handle.
    pub fn lookup_string(&self, id: StringId) -> (r: &str)
        requires
            id.0 < self@.strings.len(),
        ensures
            r@ == self@.strings[id.0 as int],
    {
        match crate::intern::interner_get(&self.strings, id.0) {
            Some(s) => s,
            None => vstd::pervasive::unreached(),
        }
    }

    /// The number of top-level definitions, in source order.
    pub fn definition_count(&self) -> (r: usize)
        ensures
            r == self@.definitions.len(),
    {
        self.definitions.len()
    }

    /// The definition index entry at position `i`.
    pub fn lookup_definition(&self, id: DefinitionId) -> (r: AstDefinition)
        requires
            id.0 < self@.definitions.len(),
        ensures
            r == self@.definitions[id.0 as int],
    {
        self.definitions[id.0]
    }

    pub fn lookup_schema(&self, id: SchemaDefinitionId) -> (r: &SchemaDefinition)
        requires
            id.0 < self@.schema_definitions.len(),
        ensures
            *r == self@.schema_definitions[id.0 as int],
    {
        &self.schema_definitions[id.0]
    }

    pub fn lookup_scalar(&self, id: ScalarDefinitionId) -> (r: &ScalarDefinition)
        requires
            id.0 < self@.scalar_definitions.len(),
        ensures
            *r == self@.scalar_definitions[id.0 as int],
    {
        &self.scalar_definitions[id.0]
    }

    pub fn lookup_object(&self, id: ObjectDefinitionId) -> (r: &ObjectDefinition)
        requires
            id.0 < self@.object_definitions.len(),
        ensures
            *r == self@.object_definitions[id.0 as int],
    {
        &self.object_definitions[id.0]
    }

    pub fn lookup_interface(&self, id: InterfaceDefinitionId) -> (r: &InterfaceDefinition)
        requires
            id.0 < self@.interface_definitions.len(),
        ensures
            *r == self@.interface_definitions[id.0 as int],
    {
        &self.interface_definitions[id.0]
    }

    pub fn lookup_union(&self, id: UnionDefinitionId) -> (r: &UnionDefinition)
        requires
            id.0 < self@.union_definitions.len(),
        ensures
            *r == self@.union_definitions[id.0 as int],
    {
        &self.union_definitions[id.0]
    }

    pub fn lookup_enum(&self, id: EnumDefinitionId) -> (r: &EnumDefinition)
        requires
            id.0 < self@.enum_definitions.len(),
        ensures
            *r == self@.enum_definitions[id.0 as int],
    {
        &self.enum_definitions[id.0]
    }

    pub fn lookup_input_object(&self, id: InputObjectDefinitionId) -> (r: &InputObjectDefinition)
        requires
            id.0 < self@.input_object_definitions.len(),
        ensures
            *r == self@.input_object_definitions[id.0 as int],
    {
        &self.input_object_definitions[id.0]
    }

    pub fn lookup_field(&self, id: FieldDefinitionId) -> (r: &FieldDefinition)
        requires
            id.0 < self@.field_definitions.len(),
        ensures
            *r == self@.field_definitions[id.0 as int],
    {
        &self.field_definitions[id.0]
    }

    pub fn lookup_input_value(&self, id: InputValueDefinitionId) -> (r: &InputValueDefinition)
        requires
            id.0 < self@.input_value_definitions.len(),
        ensures
            *r == self@.input_value_definitions[id.0 as int],
    {
        &self.input_value_definitions[id.0]
    }

    pub fn lookup_enum_value(&self, id: EnumValueDefinitionId) -> (r: &EnumValueDefinition)
        requires
            id.0 < self@.enum_value_definitions.len(),
        ensures
            *r == self@.enum_value_definitions[id.0 as int],
    {
        &self.enum_value_definitions[id.0]
    }

    pub fn lookup_type(&self, id: TypeId) -> (r: &Type)
        requires
            id.0 < self@.type_references.len(),
        ensures
            *r == self@.type_references[id.0 as int],
    {
        &self.type_references[id.0]
    }

    pub fn lookup_value(&self, id: ValueId) -> (r: &Value)
        requires
            id.0 < self@.values.len(),
        ensures
            *r == self@.values[id.0 as int],
    {
        &self.values[id.0]
    }

    pub fn lookup_directive(&self, id: DirectiveId) -> (r: &Directive)
        requires
            id.0 < self@.directives.len(),
        ensures
            *r == self@.directives[id.0 as int],
    {
        &self.directives[id.0]
    }

    pub fn lookup_argument(&self, id: ArgumentId) -> (r: &Argument)
        requires
            id.0 < self@.arguments.len(),
        ensures
            *r == self@.arguments[id.0 as int],
    {
        &self.arguments[id.0]
    }

    pub fn lookup_string_literal(&self, id: StringLiteralId) -> (r: StringLiteral)
        requires
            id.0 < self@.string_literals.len(),
        ensures
            r == self@.string_literals[id.0 as int],
    {
        self.string_literals[id.0]
    }
}

} // verus!
