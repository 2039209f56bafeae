//! The write-only construction API: the only component that creates nodes
//! and mints handles. Every method appends to exactly one arena (top-level
//! definitions also append to the definition index) and returns the new
//! node's handle; handles grow monotonically and are never reused.
//!
//! Each method's contract states the exact new document model: the touched
//! arena with the node appended, every other arena unchanged. Together with
//! `lemma_wf_extend` this shows that building from well-formed parts keeps
//! the whole document well-formed.

use vstd::prelude::*;
use crate::ids::{
    StringId, DefinitionId, SchemaDefinitionId, ScalarDefinitionId, ObjectDefinitionId,
    InterfaceDefinitionId, UnionDefinitionId, EnumDefinitionId, EnumValueDefinitionId,
    InputObjectDefinitionId, FieldDefinitionId, InputValueDefinitionId, TypeId, ValueId,
    DirectiveId, ArgumentId, StringLiteralId,
};
use crate::ast::{
    Ast, AstView, AstDefinition, SchemaDefinition, ScalarDefinition, ObjectDefinition,
    InterfaceDefinition, UnionDefinition, EnumDefinition, EnumValueDefinition,
    InputObjectDefinition, FieldDefinition, InputValueDefinition, Type, Value, Directive,
    Argument, StringLiteral, empty_ast_view, extends, lemma_wf_extend, schema_definition_wf,
    scalar_definition_wf, object_definition_wf, interface_definition_wf, union_definition_wf,
    enum_definition_wf, enum_value_definition_wf, input_object_definition_wf,
    field_definition_wf, input_value_definition_wf, type_wf, string_literal_wf, directive_wf,
    argument_wf, value_wf_at, definition_entry_wf, opt_string_ok, string_ok,
};

verus! {

/// What interning a text does to the string table: the handle addresses the
/// text; a text seen before keeps its old handle and the table is unchanged;
/// a new text is appended and addressed by the next dense index.
pub open spec fn intern_post(
    pre: Seq<Seq<char>>,
    post: Seq<Seq<char>>,
    text: Seq<char>,
    idx: int,
) -> bool {
    &&& 0 <= idx < post.len()
    &&& post[idx] == text
    &&& (pre.contains(text) ==> post == pre && (forall|j: int|
        0 <= j < pre.len() && pre[j] == text ==> idx == j))
    &&& (!pre.contains(text) ==> post == pre.push(text) && idx == pre.len())
}

/// What pushing a top-level definition does to the definition index.
pub open spec fn adds_definition(pre: AstView, post: AstView, d: AstDefinition) -> bool {
    post.definitions == pre.definitions.push(d)
}

/// The document builder. Construction is append-only: nodes are handed in
/// fully formed, get a fresh handle, and are never moved or dropped again.
pub struct AstBuilder {
    pub ast: Ast,
}

impl AstBuilder {
    /// A builder over an empty document.
    pub fn new() -> (r: AstBuilder)
        ensures
            r.ast@ == empty_ast_view(),
            r.ast@.wf(),
    {
        let b = AstBuilder {
            ast: Ast {
                strings: crate::intern::interner_new(),
                definitions: Vec::new(),
                schema_definitions: Vec::new(),
                scalar_definitions: Vec::new(),
                object_definitions: Vec::new(),
                interface_definitions: Vec::new(),
                union_definitions: Vec::new(),
                enum_definitions: Vec::new(),
                input_object_definitions: Vec::new(),
                field_definitions: Vec::new(),
                input_value_definitions: Vec::new(),
                enum_value_definitions: Vec::new(),
                type_references: Vec::new(),
                string_literals: Vec::new(),
                values: Vec::new(),
                directives: Vec::new(),
                arguments: Vec::new(),
            },
        };
        b
    }

    /// Freezes construction and hands out the finished document.
    pub fn finish(self) -> (r: Ast)
        ensures
            r@ == self.ast@,
    {
        self.ast
    }

    /// Interns a text, returning its dense handle; the same text always
    /// yields the same handle.
    pub fn intern_string(&mut self, string: &str) -> (r: StringId)
        ensures
            intern_post(old(self).ast@.strings, final(self).ast@.strings, string@, r.0 as int),
            final(self).ast@ == (AstView {
                strings: final(self).ast@.strings,
                ..old(self).ast@
            }),
            old(self).ast@.wf() ==> final(self).ast@.wf(),
    {
        let owned: String = string.to_owned();
        let r = crate::intern::interner_insert(&mut self.ast.strings, owned);
        proof {
            let a = old(self).ast@;
            let b = self.ast@;
            if a.wf() {
                assert(extends(a, b));
                lemma_wf_extend(a, b);
            }
        }
        StringId(r.0)
    }

    /// Interns an identifier. Same contract as `intern_string`.
    pub fn ident(&mut self, ident: &str) -> (r: StringId)
        ensures
            intern_post(old(self).ast@.strings, final(self).ast@.strings, ident@, r.0 as int),
            final(self).ast@ == (AstView {
                strings: final(self).ast@.strings,
                ..old(self).ast@
            }),
            old(self).ast@.wf() ==> final(self).ast@.wf(),
    {
        self.intern_string(ident)
    }

    /// Attaches a description to an already-recorded top-level definition.
    /// Descriptions are parsed as a leading annotation that may only become
    /// known after the definition's handle was minted, so this is the one
    /// post-hoc patch the builder allows; with `None` nothing changes.
    pub fn store_description(&mut self, definition: DefinitionId, description: Option<StringId>)
        requires
            old(self).ast@.wf(),
            definition.0 < old(self).ast@.definitions.len(),
        ensures
            description matches None ==> final(self).ast@ == old(self).ast@,
            description matches Some(dsc) ==> (match old(self).ast@.definitions[
                definition.0 as int
            ] {
                AstDefinition::Schema(id) => final(self).ast@ == (AstView {
                    schema_definitions: old(self).ast@.schema_definitions.update(
                        id.0 as int,
                        (SchemaDefinition {
                            description: Some(dsc),
                            ..old(self).ast@.schema_definitions[id.0 as int]
                        }),
                    ),
                    ..old(self).ast@
                }),
                AstDefinition::Scalar(id) => final(self).ast@ == (AstView {
                    scalar_definitions: old(self).ast@.scalar_definitions.update(
                        id.0 as int,
                        (ScalarDefinition {
                            description: Some(dsc),
                            ..old(self).ast@.scalar_definitions[id.0 as int]
                        }),
                    ),
                    ..old(self).ast@
                }),
                AstDefinition::Object(id) => final(self).ast@ == (AstView {
                    object_definitions: old(self).ast@.object_definitions.update(
                        id.0 as int,
                        (ObjectDefinition {
                            description: Some(dsc),
                            ..old(self).ast@.object_definitions[id.0 as int]
                        }),
                    ),
                    ..old(self).ast@
                }),
                AstDefinition::Interface(id) => final(self).ast@ == (AstView {
                    interface_definitions: old(self).ast@.interface_definitions.update(
                        id.0 as int,
                        (InterfaceDefinition {
                            description: Some(dsc),
                            ..old(self).ast@.interface_definitions[id.0 as int]
                        }),
                    ),
                    ..old(self).ast@
                }),
                AstDefinition::Union(id) => final(self).ast@ == (AstView {
                    union_definitions: old(self).ast@.union_definitions.update(
                        id.0 as int,
                        (UnionDefinition {
                            description: Some(dsc),
                            ..old(self).ast@.union_definitions[id.0 as int]
                        }),
                    ),
                    ..old(self).ast@
                }),
                AstDefinition::Enum(id) => final(self).ast@ == (AstView {
                    enum_definitions: old(self).ast@.enum_definitions.update(
                        id.0 as int,
                        (EnumDefinition {
                            description: Some(dsc),
                            ..old(self).ast@.enum_definitions[id.0 as int]
                        }),
                    ),
                    ..old(self).ast@
                }),
                AstDefinition::InputObject(id) => final(self).ast@ == (AstView {
                    input_object_definitions: old(self).ast@.input_object_definitions.update(
                        id.0 as int,
                        (InputObjectDefinition {
                            description: Some(dsc),
                            ..old(self).ast@.input_object_definitions[id.0 as int]
                        }),
                    ),
                    ..old(self).ast@
                }),
            }),
            opt_string_ok(description, old(self).ast@) ==> final(self).ast@.wf(),
    {
        if let Some(dsc) = description {
            let ghost a = old(self).ast@;
            let entry = self.ast.definitions[definition.0];
            proof {
                assert(definition_entry_wf(a.definitions[definition.0 as int], a));
            }
            match entry {
                AstDefinition::Schema(id) => {
                    let mut node = self.ast.schema_definitions.remove(id.0);
                    node.description = Some(dsc);
                    let ghost gnode = node;
                    self.ast.schema_definitions.insert(id.0, node);
                    proof {
                        let b = self.ast@;
                        assert(b.schema_definitions =~= a.schema_definitions.update(
                            id.0 as int, gnode));
                        if string_ok(dsc, a) {
                            assert(schema_definition_wf(a.schema_definitions[id.0 as int], a));
                            assert(schema_definition_wf(gnode, b));
                            crate::ast::lemma_wf_update_defs(a, b);
                        }
                    }
                },
                AstDefinition::Scalar(id) => {
                    let mut node = self.ast.scalar_definitions.remove(id.0);
                    node.description = Some(dsc);
                    let ghost gnode = node;
                    self.ast.scalar_definitions.insert(id.0, node);
                    proof {
                        let b = self.ast@;
                        assert(b.scalar_definitions =~= a.scalar_definitions.update(
                            id.0 as int, gnode));
                        if string_ok(dsc, a) {
                            assert(scalar_definition_wf(a.scalar_definitions[id.0 as int], a));
                            assert(scalar_definition_wf(gnode, b));
                            crate::ast::lemma_wf_update_defs(a, b);
                        }
                    }
                },
                AstDefinition::Object(id) => {
                    let mut node = self.ast.object_definitions.remove(id.0);
                    node.description = Some(dsc);
                    let ghost gnode = node;
                    self.ast.object_definitions.insert(id.0, node);
                    proof {
                        let b = self.ast@;
                        assert(b.object_definitions =~= a.object_definitions.update(
                            id.0 as int, gnode));
                        if string_ok(dsc, a) {
                            assert(object_definition_wf(a.object_definitions[id.0 as int], a));
                            assert(object_definition_wf(gnode, b));
                            crate::ast::lemma_wf_update_defs(a, b);
                        }
                    }
                },
                AstDefinition::Interface(id) => {
                    let mut node = self.ast.interface_definitions.remove(id.0);
                    node.description = Some(dsc);
                    let ghost gnode = node;
                    self.ast.interface_definitions.insert(id.0, node);
                    proof {
                        let b = self.ast@;
                        assert(b.interface_definitions =~= a.interface_definitions.update(
                            id.0 as int, gnode));
                        if string_ok(dsc, a) {
                            assert(interface_definition_wf(
                                a.interface_definitions[id.0 as int], a));
                            assert(interface_definition_wf(gnode, b));
                            crate::ast::lemma_wf_update_defs(a, b);
                        }
                    }
                },
                AstDefinition::Union(id) => {
                    let mut node = self.ast.union_definitions.remove(id.0);
                    node.description = Some(dsc);
                    let ghost gnode = node;
                    self.ast.union_definitions.insert(id.0, node);
                    proof {
                        let b = self.ast@;
                        assert(b.union_definitions =~= a.union_definitions.update(
                            id.0 as int, gnode));
                        if string_ok(dsc, a) {
                            assert(union_definition_wf(a.union_definitions[id.0 as int], a));
                            assert(union_definition_wf(gnode, b));
                            crate::ast::lemma_wf_update_defs(a, b);
                        }
                    }
                },
                AstDefinition::Enum(id) => {
                    let mut node = self.ast.enum_definitions.remove(id.0);
                    node.description = Some(dsc);
                    let ghost gnode = node;
                    self.ast.enum_definitions.insert(id.0, node);
                    proof {
                        let b = self.ast@;
                        assert(b.enum_definitions =~= a.enum_definitions.update(
                            id.0 as int, gnode));
                        if string_ok(dsc, a) {
                            assert(enum_definition_wf(a.enum_definitions[id.0 as int], a));
                            assert(enum_definition_wf(gnode, b));
                            crate::ast::lemma_wf_update_defs(a, b);
                        }
                    }
                },
                AstDefinition::InputObject(id) => {
                    let mut node = self.ast.input_object_definitions.remove(id.0);
                    node.description = Some(dsc);
                    let ghost gnode = node;
                    self.ast.input_object_definitions.insert(id.0, node);
                    proof {
                        let b = self.ast@;
                        assert(b.input_object_definitions =~= a.input_object_definitions.update(
                            id.0 as int, gnode));
                        if string_ok(dsc, a) {
                            assert(input_object_definition_wf(
                                a.input_object_definitions[id.0 as int], a));
                            assert(input_object_definition_wf(gnode, b));
                            crate::ast::lemma_wf_update_defs(a, b);
                        }
                    }
                },
            }
        }
    }

    /// Appends a schema definition and records it in the definition index.
    pub fn schema_definition(&mut self, definition: SchemaDefinition) -> (r: DefinitionId)
        ensures
            final(self).ast@ == (AstView {
                schema_definitions: old(self).ast@.schema_definitions.push(definition),
                definitions: old(self).ast@.definitions.push(AstDefinition::Schema(
                    SchemaDefinitionId(old(self).ast@.schema_definitions.len() as usize),
                )),
                ..old(self).ast@
            }),
            r.0 == old(self).ast@.definitions.len(),
            old(self).ast@.schema_definitions.len() <= usize::MAX as int,
            old(self).ast@.wf() && schema_definition_wf(definition, old(self).ast@)
                ==> final(self).ast@.wf(),
    {
        let ghost d = definition;
        let id = SchemaDefinitionId(self.ast.schema_definitions.len());
        self.ast.schema_definitions.push(definition);
        let definition_id = DefinitionId(self.ast.definitions.len());
        self.ast.definitions.push(AstDefinition::Schema(id));
        proof {
            let a = old(self).ast@;
            let b = self.ast@;
            if a.wf() && schema_definition_wf(d, a) {
                assert(extends(a, b));
                assert(schema_definition_wf(d, b));
                lemma_wf_extend(a, b);
            }
        }
        definition_id
    }

    /// Appends a scalar definition and records it in the definition index.
    pub fn scalar_definition(&mut self, definition: ScalarDefinition) -> (r: DefinitionId)
        ensures
            final(self).ast@ == (AstView {
                scalar_definitions: old(self).ast@.scalar_definitions.push(definition),
                definitions: old(self).ast@.definitions.push(AstDefinition::Scalar(
                    ScalarDefinitionId(old(self).ast@.scalar_definitions.len() as usize),
                )),
                ..old(self).ast@
            }),
            r.0 == old(self).ast@.definitions.len(),
            old(self).ast@.scalar_definitions.len() <= usize::MAX as int,
            old(self).ast@.wf() && scalar_definition_wf(definition, old(self).ast@)
                ==> final(self).ast@.wf(),
    {
        let ghost d = definition;
        let id = ScalarDefinitionId(self.ast.scalar_definitions.len());
        self.ast.scalar_definitions.push(definition);
        let definition_id = DefinitionId(self.ast.definitions.len());
        self.ast.definitions.push(AstDefinition::Scalar(id));
        proof {
            let a = old(self).ast@;
            let b = self.ast@;
            if a.wf() && scalar_definition_wf(d, a) {
                assert(extends(a, b));
                assert(scalar_definition_wf(d, b));
                lemma_wf_extend(a, b);
            }
        }
        definition_id
    }

    /// Appends an object definition and records it in the definition index.
    pub fn object_definition(&mut self, definition: ObjectDefinition) -> (r: DefinitionId)
        ensures
            final(self).ast@ == (AstView {
                object_definitions: old(self).ast@.object_definitions.push(definition),
                definitions: old(self).ast@.definitions.push(AstDefinition::Object(
                    ObjectDefinitionId(old(self).ast@.object_definitions.len() as usize),
                )),
                ..old(self).ast@
            }),
            r.0 == old(self).ast@.definitions.len(),
            old(self).ast@.object_definitions.len() <= usize::MAX as int,
            old(self).ast@.wf() && object_definition_wf(definition, old(self).ast@)
                ==> final(self).ast@.wf(),
    {
        let ghost d = definition;
        let id = ObjectDefinitionId(self.ast.object_definitions.len());
        self.ast.object_definitions.push(definition);
        let definition_id = DefinitionId(self.ast.definitions.len());
        self.ast.definitions.push(AstDefinition::Object(id));
        proof {
            let a = old(self).ast@;
            let b = self.ast@;
            if a.wf() && object_definition_wf(d, a) {
                assert(extends(a, b));
                assert(object_definition_wf(d, b));
                lemma_wf_extend(a, b);
            }
        }
        definition_id
    }

    /// Appends an interface definition and records it in the definition index.
    pub fn interface_definition(&mut self, definition: InterfaceDefinition) -> (r: DefinitionId)
        ensures
            final(self).ast@ == (AstView {
                interface_definitions: old(self).ast@.interface_definitions.push(definition),
                definitions: old(self).ast@.definitions.push(AstDefinition::Interface(
                    InterfaceDefinitionId(old(self).ast@.interface_definitions.len() as usize),
                )),
                ..old(self).ast@
            }),
            r.0 == old(self).ast@.definitions.len(),
            old(self).ast@.interface_definitions.len() <= usize::MAX as int,
            old(self).ast@.wf() && interface_definition_wf(definition, old(self).ast@)
                ==> final(self).ast@.wf(),
    {
        let ghost d = definition;
        let id = InterfaceDefinitionId(self.ast.interface_definitions.len());
        self.ast.interface_definitions.push(definition);
        let definition_id = DefinitionId(self.ast.definitions.len());
        self.ast.definitions.push(AstDefinition::Interface(id));
        proof {
            let a = old(self).ast@;
            let b = self.ast@;
            if a.wf() && interface_definition_wf(d, a) {
                assert(extends(a, b));
                assert(interface_definition_wf(d, b));
                lemma_wf_extend(a, b);
            }
        }
        definition_id
    }

    /// Appends a union definition and records it in the definition index.
    pub fn union_definition(&mut self, definition: UnionDefinition) -> (r: DefinitionId)
        ensures
            final(self).ast@ == (AstView {
                union_definitions: old(self).ast@.union_definitions.push(definition),
                definitions: old(self).ast@.definitions.push(AstDefinition::Union(
                    UnionDefinitionId(old(self).ast@.union_definitions.len() as usize),
                )),
                ..old(self).ast@
            }),
            r.0 == old(self).ast@.definitions.len(),
            old(self).ast@.union_definitions.len() <= usize::MAX as int,
            old(self).ast@.wf() && union_definition_wf(definition, old(self).ast@)
                ==> final(self).ast@.wf(),
    {
        let ghost d = definition;
        let id = UnionDefinitionId(self.ast.union_definitions.len());
        self.ast.union_definitions.push(definition);
        let definition_id = DefinitionId(self.ast.definitions.len());
        self.ast.definitions.push(AstDefinition::Union(id));
        proof {
            let a = old(self).ast@;
            let b = self.ast@;
            if a.wf() && union_definition_wf(d, a) {
                assert(extends(a, b));
                assert(union_definition_wf(d, b));
                lemma_wf_extend(a, b);
            }
        }
        definition_id
    }

    /// Appends an enum definition and records it in the definition index.
    pub fn enum_definition(&mut self, definition: EnumDefinition) -> (r: DefinitionId)
        ensures
            final(self).ast@ == (AstView {
                enum_definitions: old(self).ast@.enum_definitions.push(definition),
                definitions: old(self).ast@.definitions.push(AstDefinition::Enum(
                    EnumDefinitionId(old(self).ast@.enum_definitions.len() as usize),
                )),
                ..old(self).ast@
            }),
            r.0 == old(self).ast@.definitions.len(),
            old(self).ast@.enum_definitions.len() <= usize::MAX as int,
            old(self).ast@.wf() && enum_definition_wf(definition, old(self).ast@)
                ==> final(self).ast@.wf(),
    {
        let ghost d = definition;
        let id = EnumDefinitionId(self.ast.enum_definitions.len());
        self.ast.enum_definitions.push(definition);
        let definition_id = DefinitionId(self.ast.definitions.len());
        self.ast.definitions.push(AstDefinition::Enum(id));
        proof {
            let a = old(self).ast@;
            let b = self.ast@;
            if a.wf() && enum_definition_wf(d, a) {
                assert(extends(a, b));
                assert(enum_definition_wf(d, b));
                lemma_wf_extend(a, b);
            }
        }
        definition_id
    }

    /// Appends an input object definition and records it in the definition
    /// index.
    pub fn input_object_definition(&mut self, definition: InputObjectDefinition) -> (r:
        DefinitionId)
        ensures
            final(self).ast@ == (AstView {
                input_object_definitions: old(self).ast@.input_object_definitions.push(definition),
                definitions: old(self).ast@.definitions.push(AstDefinition::InputObject(
                    InputObjectDefinitionId(old(self).ast@.input_object_definitions.len() as usize),
                )),
                ..old(self).ast@
            }),
            r.0 == old(self).ast@.definitions.len(),
            old(self).ast@.input_object_definitions.len() <= usize::MAX as int,
            old(self).ast@.wf() && input_object_definition_wf(definition, old(self).ast@)
                ==> final(self).ast@.wf(),
    {
        let ghost d = definition;
        let id = InputObjectDefinitionId(self.ast.input_object_definitions.len());
        self.ast.input_object_definitions.push(definition);
        let definition_id = DefinitionId(self.ast.definitions.len());
        self.ast.definitions.push(AstDefinition::InputObject(id));
        proof {
            let a = old(self).ast@;
            let b = self.ast@;
            if a.wf() && input_object_definition_wf(d, a) {
                assert(extends(a, b));
                assert(input_object_definition_wf(d, b));
                lemma_wf_extend(a, b);
            }
        }
        definition_id
    }

    /// Appends a field definition; fields live in their own arena and are
    /// referenced from object and interface definitions.
    pub fn field_definition(&mut self, definition: FieldDefinition) -> (r: FieldDefinitionId)
        ensures
            final(self).ast@ == (AstView {
                field_definitions: old(self).ast@.field_definitions.push(definition),
                ..old(self).ast@
            }),
            r.0 == old(self).ast@.field_definitions.len(),
            old(self).ast@.wf() && field_definition_wf(definition, old(self).ast@)
                ==> final(self).ast@.wf(),
    {
        let ghost d = definition;
        let definition_id = FieldDefinitionId(self.ast.field_definitions.len());
        self.ast.field_definitions.push(definition);
        proof {
            let a = old(self).ast@;
            let b = self.ast@;
            if a.wf() && field_definition_wf(d, a) {
                assert(extends(a, b));
                assert(field_definition_wf(d, b));
                lemma_wf_extend(a, b);
            }
        }
        definition_id
    }

    /// Appends an argument or input-object field definition.
    pub fn input_value_definition(&mut self, definition: InputValueDefinition) -> (r:
        InputValueDefinitionId)
        ensures
            final(self).ast@ == (AstView {
                input_value_definitions: old(self).ast@.input_value_definitions.push(definition),
                ..old(self).ast@
            }),
            r.0 == old(self).ast@.input_value_definitions.len(),
            old(self).ast@.wf() && input_value_definition_wf(definition, old(self).ast@)
                ==> final(self).ast@.wf(),
    {
        let ghost d = definition;
        let definition_id = InputValueDefinitionId(self.ast.input_value_definitions.len());
        self.ast.input_value_definitions.push(definition);
        proof {
            let a = old(self).ast@;
            let b = self.ast@;
            if a.wf() && input_value_definition_wf(d, a) {
                assert(extends(a, b));
                assert(input_value_definition_wf(d, b));
                lemma_wf_extend(a, b);
            }
        }
        definition_id
    }

    /// Appends an enum member definition.
    pub fn enum_value_definition(&mut self, definition: EnumValueDefinition) -> (r:
        EnumValueDefinitionId)
        ensures
            final(self).ast@ == (AstView {
                enum_value_definitions: old(self).ast@.enum_value_definitions.push(definition),
                ..old(self).ast@
            }),
            r.0 == old(self).ast@.enum_value_definitions.len(),
            old(self).ast@.wf() && enum_value_definition_wf(definition, old(self).ast@)
                ==> final(self).ast@.wf(),
    {
        let ghost d = definition;
        let id = EnumValueDefinitionId(self.ast.enum_value_definitions.len());
        self.ast.enum_value_definitions.push(definition);
        proof {
            let a = old(self).ast@;
            let b = self.ast@;
            if a.wf() && enum_value_definition_wf(d, a) {
                assert(extends(a, b));
                assert(enum_value_definition_wf(d, b));
                lemma_wf_extend(a, b);
            }
        }
        id
    }

    /// Appends a type reference.
    pub fn type_reference(&mut self, ty: Type) -> (r: TypeId)
        ensures
            final(self).ast@ == (AstView {
                type_references: old(self).ast@.type_references.push(ty),
                ..old(self).ast@
            }),
            r.0 == old(self).ast@.type_references.len(),
            old(self).ast@.wf() && type_wf(ty, old(self).ast@) ==> final(self).ast@.wf(),
    {
        let ghost d = ty;
        let ty_id = TypeId(self.ast.type_references.len());
        self.ast.type_references.push(ty);
        proof {
            let a = old(self).ast@;
            let b = self.ast@;
            if a.wf() && type_wf(d, a) {
                assert(extends(a, b));
                assert(type_wf(d, b));
                lemma_wf_extend(a, b);
            }
        }
        ty_id
    }

    /// Appends a directive occurrence.
    pub fn directive(&mut self, directive: Directive) -> (r: DirectiveId)
        ensures
            final(self).ast@ == (AstView {
                directives: old(self).ast@.directives.push(directive),
                ..old(self).ast@
            }),
            r.0 == old(self).ast@.directives.len(),
            old(self).ast@.wf() && directive_wf(directive, old(self).ast@)
                ==> final(self).ast@.wf(),
    {
        let ghost d = directive;
        let id = DirectiveId(self.ast.directives.len());
        self.ast.directives.push(directive);
        proof {
            let a = old(self).ast@;
            let b = self.ast@;
            if a.wf() && directive_wf(d, a) {
                assert(extends(a, b));
                assert(directive_wf(d, b));
                lemma_wf_extend(a, b);
            }
        }
        id
    }

    /// Appends a `name: value` argument.
    pub fn argument(&mut self, argument: Argument) -> (r: ArgumentId)
        ensures
            final(self).ast@ == (AstView {
                arguments: old(self).ast@.arguments.push(argument),
                ..old(self).ast@
            }),
            r.0 == old(self).ast@.arguments.len(),
            old(self).ast@.wf() && argument_wf(argument, old(self).ast@)
                ==> final(self).ast@.wf(),
    {
        let ghost d = argument;
        let id = ArgumentId(self.ast.arguments.len());
        self.ast.arguments.push(argument);
        proof {
            let a = old(self).ast@;
            let b = self.ast@;
            if a.wf() && argument_wf(d, a) {
                assert(extends(a, b));
                assert(argument_wf(d, b));
                lemma_wf_extend(a, b);
            }
        }
        id
    }

    /// Appends a value. Child handles inside a list or object value must
    /// already exist, so nesting stays acyclic by construction.
    pub fn value(&mut self, value: Value) -> (r: ValueId)
        ensures
            final(self).ast@ == (AstView {
                values: old(self).ast@.values.push(value),
                ..old(self).ast@
            }),
            r.0 == old(self).ast@.values.len(),
            old(self).ast@.wf() && value_wf_at(
                old(self).ast@.values.push(value),
                old(self).ast@.values.len() as int,
                old(self).ast@,
            ) ==> final(self).ast@.wf(),
    {
        let ghost d = value;
        let id = ValueId(self.ast.values.len());
        self.ast.values.push(value);
        proof {
            let a = old(self).ast@;
            let b = self.ast@;
            if a.wf() && value_wf_at(a.values.push(d), a.values.len() as int, a) {
                assert(extends(a, b));
                assert(value_wf_at(b.values, a.values.len() as int, b));
                lemma_wf_extend(a, b);
            }
        }
        id
    }

    /// Appends a string literal token.
    pub fn string_literal(&mut self, literal: StringLiteral) -> (r: StringLiteralId)
        ensures
            final(self).ast@ == (AstView {
                string_literals: old(self).ast@.string_literals.push(literal),
                ..old(self).ast@
            }),
            r.0 == old(self).ast@.string_literals.len(),
            old(self).ast@.wf() && string_literal_wf(literal, old(self).ast@)
                ==> final(self).ast@.wf(),
    {
        let ghost d = literal;
        let literal_id = StringLiteralId(self.ast.string_literals.len());
        self.ast.string_literals.push(literal);
        proof {
            let a = old(self).ast@;
            let b = self.ast@;
            if a.wf() && string_literal_wf(d, a) {
                assert(extends(a, b));
                assert(string_literal_wf(d, b));
                lemma_wf_extend(a, b);
            }
        }
        literal_id
    }
}

} // verus!
