//! The canonical textual form of a document, as spec functions over the
//! document model. The printer's contract is exactly these functions; they
//! are the single place where the surface syntax is written down.
//!
//! Canonical form: one top-level definition per line; members inside braces
//! separated by single spaces; argument lists comma-separated; type wrappers
//! applied innermost-first; descriptions as quoted prefixes.

use vstd::prelude::*;
use crate::ids::{StringId, ValueId, ArgumentId, DirectiveId, FieldDefinitionId,
    InputValueDefinitionId, EnumValueDefinitionId};
use crate::ast::{AstView, AstDefinition, Value, WrappingType, operation_type_text,
    RootOperationTypeDefinition};

verus! {

pub open spec fn digit_char(n: nat) -> char {
    if n == 0 { '0' }
    else if n == 1 { '1' }
    else if n == 2 { '2' }
    else if n == 3 { '3' }
    else if n == 4 { '4' }
    else if n == 5 { '5' }
    else if n == 6 { '6' }
    else if n == 7 { '7' }
    else if n == 8 { '8' }
    else { '9' }
}

/// Decimal digits of `n`, most significant first.
pub open spec fn nat_text(n: nat) -> Seq<char>
    decreases n,
{
    if n < 10 {
        seq![digit_char(n)]
    } else {
        nat_text(n / 10).push(digit_char(n % 10))
    }
}

/// Decimal form of an integer, with a leading minus sign when negative.
pub open spec fn int_text(i: int) -> Seq<char> {
    if i < 0 {
        seq!['-'] + nat_text((-i) as nat)
    } else {
        nat_text(i as nat)
    }
}

/// One wrapping operator applied to already-rendered inner text.
pub open spec fn apply_wrap(inner: Seq<char>, w: WrappingType) -> Seq<char> {
    match w {
        WrappingType::NonNull => inner + "!"@,
        WrappingType::List => "["@ + inner + "]"@,
    }
}

/// Wrappers applied in storage order: the first is innermost.
pub open spec fn wrap_text(inner: Seq<char>, ws: Seq<WrappingType>) -> Seq<char>
    decreases ws.len(),
{
    if ws.len() == 0 {
        inner
    } else {
        wrap_text(apply_wrap(inner, ws[0]), ws.drop_first())
    }
}

/// Applying one more (outermost) wrapper wraps the whole rendered text.
pub proof fn lemma_wrap_snoc(inner: Seq<char>, ws: Seq<WrappingType>, w: WrappingType)
    ensures
        wrap_text(inner, ws.push(w)) == apply_wrap(wrap_text(inner, ws), w),
    decreases ws.len(),
{
    if ws.len() == 0 {
        assert(ws.push(w)[0] == w);
        assert(ws.push(w).drop_first() =~= Seq::<WrappingType>::empty());
        assert(wrap_text(inner, ws.push(w)) == wrap_text(
            apply_wrap(inner, w),
            Seq::<WrappingType>::empty(),
        ));
        assert(wrap_text(apply_wrap(inner, w), Seq::<WrappingType>::empty()) == apply_wrap(
            inner,
            w,
        ));
        assert(wrap_text(inner, ws) == inner);
    } else {
        assert(ws.push(w)[0] == ws[0]);
        assert(ws.push(w).drop_first() =~= ws.drop_first().push(w));
        assert(wrap_text(inner, ws.push(w)) == wrap_text(
            apply_wrap(inner, ws[0]),
            ws.drop_first().push(w),
        ));
        lemma_wrap_snoc(apply_wrap(inner, ws[0]), ws.drop_first(), w);
        assert(wrap_text(inner, ws) == wrap_text(apply_wrap(inner, ws[0]), ws.drop_first()));
    }
}

/// The rendered form of the type reference at index `i`.
pub open spec fn type_text(v: AstView, i: int) -> Seq<char> {
    wrap_text(
        v.strings[v.type_references[i].name.0 as int],
        v.type_references[i].wrappers@,
    )
}

/// The values clause of document well-formedness on its own: the condition
/// under which rendering of nested values is defined.
pub open spec fn values_closed(v: AstView) -> bool {
    forall|i: int| 0 <= i < v.values.len() ==> crate::ast::value_wf_at(v.values, i, v)
}

/// The rendered form of the value at index `id`.
pub open spec fn value_text(v: AstView, id: int) -> Seq<char>
    decreases id, 1int, 0int
        when 0 <= id < v.values.len() && values_closed(v)
{
    match v.values[id] {
        Value::Variable(s) => "$"@ + v.strings[s.0 as int],
        Value::Int(x) => int_text(x as int),
        Value::Float(s) => v.strings[s.0 as int],
        Value::String(s) => "\""@ + v.strings[s.0 as int] + "\""@,
        Value::Boolean(x) => if x { "true"@ } else { "false"@ },
        Value::Null => "null"@,
        Value::Enum(s) => v.strings[s.0 as int],
        Value::List(children) => "["@ + value_list_text(v, children@, id) + "]"@,
        Value::Object(fields) => "{"@ + object_entries_text(v, fields@, id) + "}"@,
    }
}

/// Comma-separated rendering of a list value's elements, each of which sits
/// below `bound` in the value arena.
pub open spec fn value_list_text(v: AstView, ids: Seq<ValueId>, bound: int) -> Seq<char>
    decreases bound, 0int, ids.len()
        when 0 <= bound <= v.values.len() && values_closed(v) && (forall|j: int|
            0 <= j < ids.len() ==> (#[trigger] ids[j]).0 < bound)
{
    if ids.len() == 0 {
        Seq::empty()
    } else if ids.len() == 1 {
        value_text(v, ids[0].0 as int)
    } else {
        value_list_text(v, ids.drop_last(), bound) + ", "@ + value_text(v, ids.last().0 as int)
    }
}

/// Comma-separated rendering of an object value's entries, in source order.
pub open spec fn object_entries_text(
    v: AstView,
    fields: Seq<(StringId, ValueId)>,
    bound: int,
) -> Seq<char>
    decreases bound, 0int, fields.len()
        when 0 <= bound <= v.values.len() && values_closed(v) && (forall|j: int|
            0 <= j < fields.len() ==> (#[trigger] fields[j]).1.0 < bound)
{
    if fields.len() == 0 {
        Seq::empty()
    } else if fields.len() == 1 {
        v.strings[fields[0].0.0 as int] + ": "@ + value_text(v, fields[0].1.0 as int)
    } else {
        object_entries_text(v, fields.drop_last(), bound) + ", "@
            + v.strings[fields.last().0.0 as int] + ": "@
            + value_text(v, fields.last().1.0 as int)
    }
}

/// The rendered form of the argument at index `i`.
pub open spec fn argument_text(v: AstView, i: int) -> Seq<char> {
    v.strings[v.arguments[i].name.0 as int] + ": "@ + value_text(v, v.arguments[i].value.0 as int)
}

/// Comma-separated rendering of a directive's arguments.
pub open spec fn arguments_text(v: AstView, ids: Seq<ArgumentId>) -> Seq<char>
    decreases ids.len(),
{
    if ids.len() == 0 {
        Seq::empty()
    } else if ids.len() == 1 {
        argument_text(v, ids[0].0 as int)
    } else {
        arguments_text(v, ids.drop_last()) + ", "@ + argument_text(v, ids.last().0 as int)
    }
}

/// The rendered form of the directive at index `i`.
pub open spec fn directive_text(v: AstView, i: int) -> Seq<char> {
    let d = v.directives[i];
    if d.arguments@.len() == 0 {
        "@"@ + v.strings[d.name.0 as int]
    } else {
        "@"@ + v.strings[d.name.0 as int] + "("@ + arguments_text(v, d.arguments@) + ")"@
    }
}

/// Directives rendered after a name, each preceded by one space.
pub open spec fn directives_text(v: AstView, ids: Seq<DirectiveId>) -> Seq<char>
    decreases ids.len(),
{
    if ids.len() == 0 {
        Seq::empty()
    } else {
        directives_text(v, ids.drop_last()) + " "@ + directive_text(v, ids.last().0 as int)
    }
}

/// A description, when present, is a quoted prefix followed by a space.
pub open spec fn opt_description_text(v: AstView, d: Option<StringId>) -> Seq<char> {
    match d {
        Some(id) => "\""@ + v.strings[id.0 as int] + "\" "@,
        None => Seq::empty(),
    }
}

/// The rendered form of the argument or input-field definition at index `i`.
pub open spec fn input_value_text(v: AstView, i: int) -> Seq<char> {
    let d = v.input_value_definitions[i];
    opt_description_text(v, d.description) + v.strings[d.name.0 as int] + ": "@
        + type_text(v, d.ty.0 as int)
        + (match d.default {
            Some(val) => " = "@ + value_text(v, val.0 as int),
            None => Seq::empty(),
        })
        + directives_text(v, d.directives@)
}

/// Comma-separated rendering of a field's argument definitions.
pub open spec fn input_values_text(v: AstView, ids: Seq<InputValueDefinitionId>) -> Seq<char>
    decreases ids.len(),
{
    if ids.len() == 0 {
        Seq::empty()
    } else if ids.len() == 1 {
        input_value_text(v, ids[0].0 as int)
    } else {
        input_values_text(v, ids.drop_last()) + ", "@ + input_value_text(v, ids.last().0 as int)
    }
}

/// The rendered form of the field definition at index `i`.
pub open spec fn field_text(v: AstView, i: int) -> Seq<char> {
    let d = v.field_definitions[i];
    opt_description_text(v, d.description) + v.strings[d.name.0 as int]
        + (if d.arguments@.len() == 0 {
            Seq::<char>::empty()
        } else {
            "("@ + input_values_text(v, d.arguments@) + ")"@
        })
        + ": "@ + type_text(v, d.ty.0 as int) + directives_text(v, d.directives@)
}

/// Space-separated rendering of the fields inside a braced block.
pub open spec fn fields_list_text(v: AstView, ids: Seq<FieldDefinitionId>) -> Seq<char>
    decreases ids.len(),
{
    if ids.len() == 0 {
        Seq::empty()
    } else if ids.len() == 1 {
        field_text(v, ids[0].0 as int)
    } else {
        fields_list_text(v, ids.drop_last()) + " "@ + field_text(v, ids.last().0 as int)
    }
}

/// Space-separated rendering of input-object fields.
pub open spec fn input_fields_list_text(
    v: AstView,
    ids: Seq<InputValueDefinitionId>,
) -> Seq<char>
    decreases ids.len(),
{
    if ids.len() == 0 {
        Seq::empty()
    } else if ids.len() == 1 {
        input_value_text(v, ids[0].0 as int)
    } else {
        input_fields_list_text(v, ids.drop_last()) + " "@ + input_value_text(v, ids.last().0 as int)
    }
}

/// The rendered form of the enum member at index `i`.
pub open spec fn enum_value_text(v: AstView, i: int) -> Seq<char> {
    let d = v.enum_value_definitions[i];
    opt_description_text(v, d.description) + v.strings[d.value.0 as int]
        + directives_text(v, d.directives@)
}

/// Space-separated rendering of enum members.
pub open spec fn enum_values_list_text(v: AstView, ids: Seq<EnumValueDefinitionId>) -> Seq<char>
    decreases ids.len(),
{
    if ids.len() == 0 {
        Seq::empty()
    } else if ids.len() == 1 {
        enum_value_text(v, ids[0].0 as int)
    } else {
        enum_values_list_text(v, ids.drop_last()) + " "@ + enum_value_text(v, ids.last().0 as int)
    }
}

/// An `implements` clause, empty when no interfaces are named.
pub open spec fn implements_text(v: AstView, ids: Seq<StringId>) -> Seq<char> {
    if ids.len() == 0 {
        Seq::empty()
    } else {
        " implements "@ + name_list_text(v, ids, " & "@)
    }
}

/// Names joined by a separator.
pub open spec fn name_list_text(v: AstView, ids: Seq<StringId>, sep: Seq<char>) -> Seq<char>
    decreases ids.len(),
{
    if ids.len() == 0 {
        Seq::empty()
    } else if ids.len() == 1 {
        v.strings[ids[0].0 as int]
    } else {
        name_list_text(v, ids.drop_last(), sep) + sep + v.strings[ids.last().0 as int]
    }
}

/// One `operation: TypeName` schema root.
pub open spec fn root_text(v: AstView, r: RootOperationTypeDefinition) -> Seq<char> {
    operation_type_text(r.operation_type) + ": "@ + v.strings[r.named_type.0 as int]
}

/// Space-separated rendering of schema roots.
pub open spec fn roots_list_text(v: AstView, roots: Seq<RootOperationTypeDefinition>) -> Seq<char>
    decreases roots.len(),
{
    if roots.len() == 0 {
        Seq::empty()
    } else if roots.len() == 1 {
        root_text(v, roots[0])
    } else {
        roots_list_text(v, roots.drop_last()) + " "@ + root_text(v, roots.last())
    }
}

/// A braced block, or nothing when the block would be empty.
pub open spec fn braced(body: Seq<char>, n: nat) -> Seq<char> {
    if n == 0 {
        Seq::empty()
    } else {
        " { "@ + body + " }"@
    }
}

pub open spec fn schema_def_text(v: AstView, i: int) -> Seq<char> {
    let d = v.schema_definitions[i];
    opt_description_text(v, d.description) + "schema"@
        + braced(roots_list_text(v, d.roots@), d.roots@.len())
}

pub open spec fn scalar_def_text(v: AstView, i: int) -> Seq<char> {
    let d = v.scalar_definitions[i];
    opt_description_text(v, d.description) + "scalar "@ + v.strings[d.name.0 as int]
        + directives_text(v, d.directives@)
}

pub open spec fn object_def_text(v: AstView, i: int) -> Seq<char> {
    let d = v.object_definitions[i];
    opt_description_text(v, d.description) + "type "@ + v.strings[d.name.0 as int]
        + implements_text(v, d.implements@) + directives_text(v, d.directives@)
        + braced(fields_list_text(v, d.fields@), d.fields@.len())
}

pub open spec fn interface_def_text(v: AstView, i: int) -> Seq<char> {
    let d = v.interface_definitions[i];
    opt_description_text(v, d.description) + "interface "@ + v.strings[d.name.0 as int]
        + implements_text(v, d.implements@) + directives_text(v, d.directives@)
        + braced(fields_list_text(v, d.fields@), d.fields@.len())
}

pub open spec fn union_def_text(v: AstView, i: int) -> Seq<char> {
    let d = v.union_definitions[i];
    opt_description_text(v, d.description) + "union "@ + v.strings[d.name.0 as int]
        + directives_text(v, d.directives@)
        + (if d.members@.len() == 0 {
            Seq::<char>::empty()
        } else {
            " = "@ + name_list_text(v, d.members@, " | "@)
        })
}

pub open spec fn enum_def_text(v: AstView, i: int) -> Seq<char> {
    let d = v.enum_definitions[i];
    opt_description_text(v, d.description) + "enum "@ + v.strings[d.name.0 as int]
        + directives_text(v, d.directives@)
        + braced(enum_values_list_text(v, d.values@), d.values@.len())
}

pub open spec fn input_object_def_text(v: AstView, i: int) -> Seq<char> {
    let d = v.input_object_definitions[i];
    opt_description_text(v, d.description) + "input "@ + v.strings[d.name.0 as int]
        + directives_text(v, d.directives@)
        + braced(input_fields_list_text(v, d.fields@), d.fields@.len())
}

/// The rendered form of one definition index entry.
pub open spec fn definition_text(v: AstView, d: AstDefinition) -> Seq<char> {
    match d {
        AstDefinition::Schema(id) => schema_def_text(v, id.0 as int),
        AstDefinition::Scalar(id) => scalar_def_text(v, id.0 as int),
        AstDefinition::Object(id) => object_def_text(v, id.0 as int),
        AstDefinition::Interface(id) => interface_def_text(v, id.0 as int),
        AstDefinition::Union(id) => union_def_text(v, id.0 as int),
        AstDefinition::Enum(id) => enum_def_text(v, id.0 as int),
        AstDefinition::InputObject(id) => input_object_def_text(v, id.0 as int),
    }
}

/// Top-level definitions, one per line, in index order.
pub open spec fn definitions_text(v: AstView, defs: Seq<AstDefinition>) -> Seq<char>
    decreases defs.len(),
{
    if defs.len() == 0 {
        Seq::empty()
    } else if defs.len() == 1 {
        definition_text(v, defs[0])
    } else {
        definitions_text(v, defs.drop_last()) + "\n"@ + definition_text(v, defs.last())
    }
}

/// The canonical text of a whole document.
pub open spec fn document_text(v: AstView) -> Seq<char> {
    definitions_text(v, v.definitions)
}

} // verus!
