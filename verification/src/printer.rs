//! The canonical printer: walks the definition index and renders the
//! document. Each function's contract says exactly which text it appends —
//! the spec functions of the text module — so the printer is deterministic
//! and order-preserving by construction.

use vstd::prelude::*;
use vstd::string::StringExecFns;
use crate::ids::{StringId, TypeId, ValueId, ArgumentId, DirectiveId, SchemaDefinitionId,
    ScalarDefinitionId, ObjectDefinitionId, InterfaceDefinitionId, UnionDefinitionId,
    EnumDefinitionId, EnumValueDefinitionId, InputObjectDefinitionId, FieldDefinitionId,
    InputValueDefinitionId};
use crate::ast::{Ast, AstDefinition, Value, WrappingType, type_wf, argument_wf, directive_wf,
    directive_list_ok, opt_string_ok, string_ok, value_wf_at, definition_entry_wf,
    schema_definition_wf, scalar_definition_wf, object_definition_wf, interface_definition_wf,
    union_definition_wf, enum_definition_wf, enum_value_definition_wf,
    input_object_definition_wf, field_definition_wf, input_value_definition_wf, string_list_ok,
    field_list_ok};
use crate::text::{digit_char, nat_text, int_text, wrap_text, lemma_wrap_snoc,
    type_text, values_closed, value_text, value_list_text, object_entries_text, argument_text,
    arguments_text, directive_text, directives_text, opt_description_text, input_value_text,
    input_values_text, field_text, fields_list_text, input_fields_list_text, enum_value_text,
    enum_values_list_text, implements_text, name_list_text, root_text, roots_list_text, braced,
    schema_def_text, scalar_def_text, object_def_text, interface_def_text, union_def_text,
    enum_def_text, input_object_def_text, definitions_text, document_text};

verus! {

fn digit_str(d: u64) -> (r: &'static str)
    requires
        d < 10,
    ensures
        r@ == seq![digit_char(d as nat)],
{
    proof {
        reveal_strlit("0");
        reveal_strlit("1");
        reveal_strlit("2");
        reveal_strlit("3");
        reveal_strlit("4");
        reveal_strlit("5");
        reveal_strlit("6");
        reveal_strlit("7");
        reveal_strlit("8");
        reveal_strlit("9");
    }
    let r: &'static str = if d == 0 {
        "0"
    } else if d == 1 {
        "1"
    } else if d == 2 {
        "2"
    } else if d == 3 {
        "3"
    } else if d == 4 {
        "4"
    } else if d == 5 {
        "5"
    } else if d == 6 {
        "6"
    } else if d == 7 {
        "7"
    } else if d == 8 {
        "8"
    } else {
        "9"
    };
    proof {
        assert(r@ =~= seq![digit_char(d as nat)]);
    }
    r
}

fn print_u64(out: &mut String, x: u64)
    ensures
        final(out)@ == old(out)@ + nat_text(x as nat),
    decreases x,
{
    if x < 10 {
        out.append(digit_str(x));
        proof {
            assert(final(out)@ =~= old(out)@ + nat_text(x as nat));
        }
    } else {
        print_u64(out, x / 10);
        out.append(digit_str(x % 10));
        proof {
            assert(nat_text(x as nat) =~= nat_text((x as nat) / 10).push(
                digit_char((x as nat) % 10)));
            assert(final(out)@ =~= old(out)@ + nat_text(x as nat));
        }
    }
}

fn print_i32(out: &mut String, x: i32)
    ensures
        final(out)@ == old(out)@ + int_text(x as int),
{
    if x >= 0 {
        print_u64(out, x as u64);
    } else {
        out.append("-");
        let mag: i64 = -(x as i64);
        print_u64(out, mag as u64);
        proof {
            reveal_strlit("-");
            assert(final(out)@ =~= old(out)@ + int_text(x as int));
        }
    }
}

#[verifier::loop_isolation(false)]
fn print_type(ast: &Ast, id: TypeId, out: &mut String)
    requires
        ast@.wf(),
        id.0 < ast@.type_references.len(),
    ensures
        final(out)@ == old(out)@ + type_text(ast@, id.0 as int),
{
    proof {
        assert(type_wf(ast@.type_references[id.0 as int], ast@));
    }
    let node = ast.lookup_type(id);
    let ghost name_text = ast@.strings[node.name.0 as int];
    let mut s: String = ast.lookup_string(node.name).to_owned();
    let n = node.wrappers.len();
    let mut j: usize = 0;
    proof {
        assert(node.wrappers@.take(0) =~= Seq::<WrappingType>::empty());
    }
    while j < n
        invariant
            j <= n,
            s@ == wrap_text(name_text, node.wrappers@.take(j as int)),
        decreases n - j,
    {
        let w = node.wrappers[j];
        match w {
            WrappingType::NonNull => {
                s.append("!");
            },
            WrappingType::List => {
                let mut t: String = "[".to_owned();
                t.append(s.as_str());
                t.append("]");
                s = t;
            },
        }
        proof {
            assert(node.wrappers@.take(j as int + 1) =~= node.wrappers@.take(j as int).push(
                node.wrappers@[j as int]));
            lemma_wrap_snoc(name_text, node.wrappers@.take(j as int), node.wrappers@[j as int]);
            assert(s@ =~= wrap_text(name_text, node.wrappers@.take(j as int + 1)));
        }
        j = j + 1;
    }
    proof {
        assert(node.wrappers@.take(n as int) =~= node.wrappers@);
    }
    out.append(s.as_str());
}

#[verifier::rlimit(100)]
#[verifier::loop_isolation(false)]
fn print_value(ast: &Ast, id: ValueId, out: &mut String)
    requires
        ast@.wf(),
        id.0 < ast@.values.len(),
    ensures
        final(out)@ == old(out)@ + value_text(ast@, id.0 as int),
    decreases id.0,
{
    proof {
        assert(value_wf_at(ast@.values, id.0 as int, ast@));
        assert(values_closed(ast@));
    }
    let node = ast.lookup_value(id);
    match node {
        Value::Variable(s) => {
            out.append("$");
            out.append(ast.lookup_string(*s));
        },
        Value::Int(x) => {
            print_i32(out, *x);
        },
        Value::Float(s) => {
            out.append(ast.lookup_string(*s));
        },
        Value::String(s) => {
            out.append("\"");
            out.append(ast.lookup_string(*s));
            out.append("\"");
        },
        Value::Boolean(b) => {
            if *b {
                out.append("true");
            } else {
                out.append("false");
            }
        },
        Value::Null => {
            out.append("null");
        },
        Value::Enum(s) => {
            out.append(ast.lookup_string(*s));
        },
        Value::List(children) => {
            let ghost base = out@;
            out.append("[");
            let n = children.len();
            let mut j: usize = 0;
            proof {
                assert(children@.take(0) =~= Seq::<ValueId>::empty());
            }
            while j < n
                invariant
                    j <= n,
                    out@ == base + "["@ + value_list_text(ast@, children@.take(j as int),
                        id.0 as int),
                decreases n - j,
            {
                if j > 0 {
                    out.append(", ");
                }
                let c = children[j];
                proof {
                    assert(c == children@[j as int]);
                    assert(c.0 < id.0);
                }
                print_value(ast, c, out);
                proof {
                    assert(children@.take(j as int + 1).drop_last() =~= children@.take(j as int));
                    assert(children@.take(j as int + 1).last() == children@[j as int]);
                    assert(out@ =~= base + "["@ + value_list_text(ast@, children@.take(
                        j as int + 1), id.0 as int));
                }
                j = j + 1;
            }
            out.append("]");
            proof {
                assert(children@.take(n as int) =~= children@);
                assert(final(out)@ =~= old(out)@ + value_text(ast@, id.0 as int));
            }
        },
        Value::Object(fields) => {
            let ghost base = out@;
            out.append("{");
            let n = fields.len();
            let mut j: usize = 0;
            proof {
                assert(fields@.take(0) =~= Seq::<(StringId, ValueId)>::empty());
            }
            while j < n
                invariant
                    j <= n,
                    out@ == base + "{"@ + object_entries_text(ast@, fields@.take(j as int),
                        id.0 as int),
                decreases n - j,
            {
                if j > 0 {
                    out.append(", ");
                }
                let f = fields[j];
                proof {
                    assert(f == fields@[j as int]);
                    assert(f.1.0 < id.0);
                    assert(string_ok(f.0, ast@));
                }
                out.append(ast.lookup_string(f.0));
                out.append(": ");
                print_value(ast, f.1, out);
                proof {
                    assert(fields@.take(j as int + 1).drop_last() =~= fields@.take(j as int));
                    assert(fields@.take(j as int + 1).last() == fields@[j as int]);
                    assert(out@ =~= base + "{"@ + object_entries_text(ast@, fields@.take(
                        j as int + 1), id.0 as int));
                }
                j = j + 1;
            }
            out.append("}");
            proof {
                assert(fields@.take(n as int) =~= fields@);
                assert(final(out)@ =~= old(out)@ + value_text(ast@, id.0 as int));
            }
        },
    }
}

#[verifier::rlimit(100)]
#[verifier::loop_isolation(false)]
fn print_directive(ast: &Ast, id: DirectiveId, out: &mut String)
    requires
        ast@.wf(),
        id.0 < ast@.directives.len(),
    ensures
        final(out)@ == old(out)@ + directive_text(ast@, id.0 as int),
{
    proof {
        assert(directive_wf(ast@.directives[id.0 as int], ast@));
    }
    let node = ast.lookup_directive(id);
    let ghost base = out@;
    out.append("@");
    out.append(ast.lookup_string(node.name));
    if node.arguments.len() > 0 {
        out.append("(");
        let ghost base2 = out@;
        let n = node.arguments.len();
        let mut j: usize = 0;
        proof {
            assert(node.arguments@.take(0) =~= Seq::<ArgumentId>::empty());
        }
        while j < n
            invariant
                j <= n,
                out@ == base2 + arguments_text(ast@, node.arguments@.take(j as int)),
            decreases n - j,
        {
            if j > 0 {
                out.append(", ");
            }
            let aid = node.arguments[j];
            proof {
                assert(aid == node.arguments@[j as int]);
                assert(aid.0 < ast@.arguments.len());
                assert(argument_wf(ast@.arguments[aid.0 as int], ast@));
            }
            let ghost before = out@;
            out.append(ast.lookup_string(ast.lookup_argument(aid).name));
            out.append(": ");
            print_value(ast, ast.lookup_argument(aid).value, out);
            proof {
                assert(out@ =~= before + argument_text(ast@, aid.0 as int));
                assert(node.arguments@.take(j as int + 1).drop_last() =~= node.arguments@.take(
                    j as int));
                assert(node.arguments@.take(j as int + 1).last() == node.arguments@[j as int]);
                assert(out@ =~= base2 + arguments_text(ast@, node.arguments@.take(j as int + 1)));
            }
            j = j + 1;
        }
        out.append(")");
        proof {
            assert(node.arguments@.take(n as int) =~= node.arguments@);
            assert(final(out)@ =~= old(out)@ + directive_text(ast@, id.0 as int));
        }
    } else {
        proof {
            assert(final(out)@ =~= old(out)@ + directive_text(ast@, id.0 as int));
        }
    }
}

#[verifier::loop_isolation(false)]
fn print_directives(ast: &Ast, ids: &Vec<DirectiveId>, out: &mut String)
    requires
        ast@.wf(),
        directive_list_ok(ids@, ast@),
    ensures
        final(out)@ == old(out)@ + directives_text(ast@, ids@),
{
    let ghost base = out@;
    let n = ids.len();
    let mut j: usize = 0;
    proof {
        assert(ids@.take(0) =~= Seq::<DirectiveId>::empty());
    }
    while j < n
        invariant
            j <= n,
            out@ == base + directives_text(ast@, ids@.take(j as int)),
        decreases n - j,
    {
        out.append(" ");
        let did = ids[j];
        proof {
            assert(did == ids@[j as int]);
            assert(did.0 < ast@.directives.len());
        }
        print_directive(ast, did, out);
        proof {
            assert(ids@.take(j as int + 1).drop_last() =~= ids@.take(j as int));
            assert(ids@.take(j as int + 1).last() == ids@[j as int]);
            assert(out@ =~= base + directives_text(ast@, ids@.take(j as int + 1)));
        }
        j = j + 1;
    }
    proof {
        assert(ids@.take(n as int) =~= ids@);
    }
}

fn print_description(ast: &Ast, d: Option<StringId>, out: &mut String)
    requires
        ast@.wf(),
        opt_string_ok(d, ast@),
    ensures
        final(out)@ == old(out)@ + opt_description_text(ast@, d),
{
    match d {
        Some(id) => {
            out.append("\"");
            out.append(ast.lookup_string(id));
            out.append("\" ");
            proof {
                assert(final(out)@ =~= old(out)@ + opt_description_text(ast@, Some(id)));
            }
        },
        None => {
            proof {
                assert(final(out)@ =~= old(out)@ + opt_description_text(ast@, d));
            }
        },
    }
}

#[verifier::rlimit(100)]
#[verifier::loop_isolation(false)]
fn print_input_value(ast: &Ast, id: InputValueDefinitionId, out: &mut String)
    requires
        ast@.wf(),
        id.0 < ast@.input_value_definitions.len(),
    ensures
        final(out)@ == old(out)@ + input_value_text(ast@, id.0 as int),
{
    proof {
        assert(input_value_definition_wf(ast@.input_value_definitions[id.0 as int], ast@));
    }
    let node = ast.lookup_input_value(id);
    print_description(ast, node.description, out);
    out.append(ast.lookup_string(node.name));
    out.append(": ");
    print_type(ast, node.ty, out);
    match node.default {
        Some(val) => {
            out.append(" = ");
            print_value(ast, val, out);
        },
        None => {},
    }
    print_directives(ast, &node.directives, out);
    proof {
        assert(final(out)@ =~= old(out)@ + input_value_text(ast@, id.0 as int));
    }
}

#[verifier::rlimit(100)]
#[verifier::loop_isolation(false)]
fn print_field(ast: &Ast, id: FieldDefinitionId, out: &mut String)
    requires
        ast@.wf(),
        id.0 < ast@.field_definitions.len(),
    ensures
        final(out)@ == old(out)@ + field_text(ast@, id.0 as int),
{
    proof {
        assert(field_definition_wf(ast@.field_definitions[id.0 as int], ast@));
    }
    let node = ast.lookup_field(id);
    print_description(ast, node.description, out);
    out.append(ast.lookup_string(node.name));
    if node.arguments.len() > 0 {
        out.append("(");
        let ghost base2 = out@;
        let n = node.arguments.len();
        let mut j: usize = 0;
        proof {
            assert(node.arguments@.take(0) =~= Seq::<InputValueDefinitionId>::empty());
        }
        while j < n
            invariant
                j <= n,
                out@ == base2 + input_values_text(ast@, node.arguments@.take(j as int)),
            decreases n - j,
        {
            if j > 0 {
                out.append(", ");
            }
            let aid = node.arguments[j];
            proof {
                assert(aid == node.arguments@[j as int]);
                assert(aid.0 < ast@.input_value_definitions.len());
            }
            print_input_value(ast, aid, out);
            proof {
                assert(node.arguments@.take(j as int + 1).drop_last() =~= node.arguments@.take(
                    j as int));
                assert(node.arguments@.take(j as int + 1).last() == node.arguments@[j as int]);
                assert(out@ =~= base2 + input_values_text(ast@, node.arguments@.take(
                    j as int + 1)));
            }
            j = j + 1;
        }
        out.append(")");
        proof {
            assert(node.arguments@.take(n as int) =~= node.arguments@);
        }
    }
    out.append(": ");
    print_type(ast, node.ty, out);
    print_directives(ast, &node.directives, out);
    proof {
        assert(final(out)@ =~= old(out)@ + field_text(ast@, id.0 as int));
    }
}

#[verifier::loop_isolation(false)]
fn print_name_list(ast: &Ast, ids: &Vec<StringId>, sep: &str, out: &mut String)
    requires
        ast@.wf(),
        string_list_ok(ids@, ast@),
    ensures
        final(out)@ == old(out)@ + name_list_text(ast@, ids@, sep@),
{
    let ghost base = out@;
    let n = ids.len();
    let mut j: usize = 0;
    proof {
        assert(ids@.take(0) =~= Seq::<StringId>::empty());
    }
    while j < n
        invariant
            j <= n,
            out@ == base + name_list_text(ast@, ids@.take(j as int), sep@),
        decreases n - j,
    {
        if j > 0 {
            out.append(sep);
        }
        let sid = ids[j];
        proof {
            assert(sid == ids@[j as int]);
            assert(string_ok(sid, ast@));
        }
        out.append(ast.lookup_string(sid));
        proof {
            assert(ids@.take(j as int + 1).drop_last() =~= ids@.take(j as int));
            assert(ids@.take(j as int + 1).last() == ids@[j as int]);
            assert(out@ =~= base + name_list_text(ast@, ids@.take(j as int + 1), sep@));
        }
        j = j + 1;
    }
    proof {
        assert(ids@.take(n as int) =~= ids@);
    }
}

#[verifier::rlimit(100)]
#[verifier::loop_isolation(false)]
fn print_schema(ast: &Ast, id: SchemaDefinitionId, out: &mut String)
    requires
        ast@.wf(),
        id.0 < ast@.schema_definitions.len(),
    ensures
        final(out)@ == old(out)@ + schema_def_text(ast@, id.0 as int),
{
    proof {
        assert(schema_definition_wf(ast@.schema_definitions[id.0 as int], ast@));
    }
    let node = ast.lookup_schema(id);
    print_description(ast, node.description, out);
    out.append("schema");
    if node.roots.len() > 0 {
        out.append(" { ");
        let ghost base2 = out@;
        let n = node.roots.len();
        let mut j: usize = 0;
        proof {
            assert(node.roots@.take(0) =~= Seq::<crate::ast::RootOperationTypeDefinition>::empty());
        }
        while j < n
            invariant
                j <= n,
                out@ == base2 + roots_list_text(ast@, node.roots@.take(j as int)),
            decreases n - j,
        {
            if j > 0 {
                out.append(" ");
            }
            let ghost before = out@;
            proof {
                assert(string_ok(node.roots@[j as int].named_type, ast@));
            }
            out.append(node.roots[j].operation_type.as_str());
            out.append(": ");
            out.append(ast.lookup_string(node.roots[j].named_type));
            proof {
                assert(out@ =~= before + root_text(ast@, node.roots@[j as int]));
                assert(node.roots@.take(j as int + 1).drop_last() =~= node.roots@.take(j as int));
                assert(node.roots@.take(j as int + 1).last() == node.roots@[j as int]);
                assert(out@ =~= base2 + roots_list_text(ast@, node.roots@.take(j as int + 1)));
            }
            j = j + 1;
        }
        out.append(" }");
        proof {
            assert(node.roots@.take(n as int) =~= node.roots@);
            assert(final(out)@ =~= old(out)@ + schema_def_text(ast@, id.0 as int));
        }
    } else {
        proof {
            assert(final(out)@ =~= old(out)@ + schema_def_text(ast@, id.0 as int));
        }
    }
}

fn print_scalar(ast: &Ast, id: ScalarDefinitionId, out: &mut String)
    requires
        ast@.wf(),
        id.0 < ast@.scalar_definitions.len(),
    ensures
        final(out)@ == old(out)@ + scalar_def_text(ast@, id.0 as int),
{
    proof {
        assert(scalar_definition_wf(ast@.scalar_definitions[id.0 as int], ast@));
    }
    let node = ast.lookup_scalar(id);
    print_description(ast, node.description, out);
    out.append("scalar ");
    out.append(ast.lookup_string(node.name));
    print_directives(ast, &node.directives, out);
    proof {
        assert(final(out)@ =~= old(out)@ + scalar_def_text(ast@, id.0 as int));
    }
}


#[verifier::rlimit(100)]
#[verifier::loop_isolation(false)]
fn print_fields_block(ast: &Ast, fields: &Vec<FieldDefinitionId>, out: &mut String)
    requires
        ast@.wf(),
        field_list_ok(fields@, ast@),
    ensures
        final(out)@ == old(out)@ + braced(fields_list_text(ast@, fields@), fields@.len()),
{
    if fields.len() > 0 {
        out.append(" { ");
        let ghost base2 = out@;
        let n = fields.len();
        let mut j: usize = 0;
        proof {
            assert(fields@.take(0) =~= Seq::<FieldDefinitionId>::empty());
        }
        while j < n
            invariant
                j <= n,
                out@ == base2 + fields_list_text(ast@, fields@.take(j as int)),
            decreases n - j,
        {
            if j > 0 {
                out.append(" ");
            }
            let fid = fields[j];
            proof {
                assert(fid == fields@[j as int]);
                assert(fid.0 < ast@.field_definitions.len());
            }
            print_field(ast, fid, out);
            proof {
                assert(fields@.take(j as int + 1).drop_last() =~= fields@.take(j as int));
                assert(fields@.take(j as int + 1).last() == fields@[j as int]);
                assert(out@ =~= base2 + fields_list_text(ast@, fields@.take(j as int + 1)));
            }
            j = j + 1;
        }
        out.append(" }");
        proof {
            assert(fields@.take(n as int) =~= fields@);
        }
    }
}

#[verifier::rlimit(100)]
#[verifier::loop_isolation(false)]
fn print_object(ast: &Ast, id: ObjectDefinitionId, out: &mut String)
    requires
        ast@.wf(),
        id.0 < ast@.object_definitions.len(),
    ensures
        final(out)@ == old(out)@ + object_def_text(ast@, id.0 as int),
{
    proof {
        assert(object_definition_wf(ast@.object_definitions[id.0 as int], ast@));
    }
    let node = ast.lookup_object(id);
    print_description(ast, node.description, out);
    out.append("type ");
    out.append(ast.lookup_string(node.name));
    if node.implements.len() > 0 {
        out.append(" implements ");
        print_name_list(ast, &node.implements, " & ", out);
    }
    print_directives(ast, &node.directives, out);
    print_fields_block(ast, &node.fields, out);
    proof {
        assert(final(out)@ =~= old(out)@ + object_def_text(ast@, id.0 as int));
    }
}

#[verifier::rlimit(100)]
#[verifier::loop_isolation(false)]
fn print_interface(ast: &Ast, id: InterfaceDefinitionId, out: &mut String)
    requires
        ast@.wf(),
        id.0 < ast@.interface_definitions.len(),
    ensures
        final(out)@ == old(out)@ + interface_def_text(ast@, id.0 as int),
{
    proof {
        assert(interface_definition_wf(ast@.interface_definitions[id.0 as int], ast@));
    }
    let node = ast.lookup_interface(id);
    print_description(ast, node.description, out);
    out.append("interface ");
    out.append(ast.lookup_string(node.name));
    if node.implements.len() > 0 {
        out.append(" implements ");
        print_name_list(ast, &node.implements, " & ", out);
    }
    print_directives(ast, &node.directives, out);
    print_fields_block(ast, &node.fields, out);
    proof {
        assert(final(out)@ =~= old(out)@ + interface_def_text(ast@, id.0 as int));
    }
}

fn print_union(ast: &Ast, id: UnionDefinitionId, out: &mut String)
    requires
        ast@.wf(),
        id.0 < ast@.union_definitions.len(),
    ensures
        final(out)@ == old(out)@ + union_def_text(ast@, id.0 as int),
{
    proof {
        assert(union_definition_wf(ast@.union_definitions[id.0 as int], ast@));
    }
    let node = ast.lookup_union(id);
    print_description(ast, node.description, out);
    out.append("union ");
    out.append(ast.lookup_string(node.name));
    print_directives(ast, &node.directives, out);
    if node.members.len() > 0 {
        out.append(" = ");
        print_name_list(ast, &node.members, " | ", out);
    }
    proof {
        assert(final(out)@ =~= old(out)@ + union_def_text(ast@, id.0 as int));
    }
}

#[verifier::rlimit(100)]
#[verifier::loop_isolation(false)]
fn print_enum(ast: &Ast, id: EnumDefinitionId, out: &mut String)
    requires
        ast@.wf(),
        id.0 < ast@.enum_definitions.len(),
    ensures
        final(out)@ == old(out)@ + enum_def_text(ast@, id.0 as int),
{
    proof {
        assert(enum_definition_wf(ast@.enum_definitions[id.0 as int], ast@));
    }
    let node = ast.lookup_enum(id);
    print_description(ast, node.description, out);
    out.append("enum ");
    out.append(ast.lookup_string(node.name));
    print_directives(ast, &node.directives, out);
    if node.values.len() > 0 {
        out.append(" { ");
        let ghost base2 = out@;
        let n = node.values.len();
        let mut j: usize = 0;
        proof {
            assert(node.values@.take(0) =~= Seq::<EnumValueDefinitionId>::empty());
        }
        while j < n
            invariant
                j <= n,
                out@ == base2 + enum_values_list_text(ast@, node.values@.take(j as int)),
            decreases n - j,
        {
            if j > 0 {
                out.append(" ");
            }
            let vid = node.values[j];
            proof {
                assert(vid == node.values@[j as int]);
                assert(vid.0 < ast@.enum_value_definitions.len());
                assert(enum_value_definition_wf(
                    ast@.enum_value_definitions[vid.0 as int], ast@));
            }
            let ghost before = out@;
            let vnode = ast.lookup_enum_value(vid);
            print_description(ast, vnode.description, out);
            out.append(ast.lookup_string(vnode.value));
            print_directives(ast, &vnode.directives, out);
            proof {
                assert(out@ =~= before + enum_value_text(ast@, vid.0 as int));
                assert(node.values@.take(j as int + 1).drop_last() =~= node.values@.take(
                    j as int));
                assert(node.values@.take(j as int + 1).last() == node.values@[j as int]);
                assert(out@ =~= base2 + enum_values_list_text(ast@, node.values@.take(
                    j as int + 1)));
            }
            j = j + 1;
        }
        out.append(" }");
        proof {
            assert(node.values@.take(n as int) =~= node.values@);
            assert(final(out)@ =~= old(out)@ + enum_def_text(ast@, id.0 as int));
        }
    } else {
        proof {
            assert(final(out)@ =~= old(out)@ + enum_def_text(ast@, id.0 as int));
        }
    }
}

#[verifier::rlimit(100)]
#[verifier::loop_isolation(false)]
fn print_input_object(ast: &Ast, id: InputObjectDefinitionId, out: &mut String)
    requires
        ast@.wf(),
        id.0 < ast@.input_object_definitions.len(),
    ensures
        final(out)@ == old(out)@ + input_object_def_text(ast@, id.0 as int),
{
    proof {
        assert(input_object_definition_wf(ast@.input_object_definitions[id.0 as int], ast@));
    }
    let node = ast.lookup_input_object(id);
    print_description(ast, node.description, out);
    out.append("input ");
    out.append(ast.lookup_string(node.name));
    print_directives(ast, &node.directives, out);
    if node.fields.len() > 0 {
        out.append(" { ");
        let ghost base2 = out@;
        let n = node.fields.len();
        let mut j: usize = 0;
        proof {
            assert(node.fields@.take(0) =~= Seq::<InputValueDefinitionId>::empty());
        }
        while j < n
            invariant
                j <= n,
                out@ == base2 + input_fields_list_text(ast@, node.fields@.take(j as int)),
            decreases n - j,
        {
            if j > 0 {
                out.append(" ");
            }
            let fid = node.fields[j];
            proof {
                assert(fid == node.fields@[j as int]);
                assert(fid.0 < ast@.input_value_definitions.len());
            }
            print_input_value(ast, fid, out);
            proof {
                assert(node.fields@.take(j as int + 1).drop_last() =~= node.fields@.take(
                    j as int));
                assert(node.fields@.take(j as int + 1).last() == node.fields@[j as int]);
                assert(out@ =~= base2 + input_fields_list_text(ast@, node.fields@.take(
                    j as int + 1)));
            }
            j = j + 1;
        }
        out.append(" }");
        proof {
            assert(node.fields@.take(n as int) =~= node.fields@);
            assert(final(out)@ =~= old(out)@ + input_object_def_text(ast@, id.0 as int));
        }
    } else {
        proof {
            assert(final(out)@ =~= old(out)@ + input_object_def_text(ast@, id.0 as int));
        }
    }
}

impl Ast {
    /// Renders the whole document in canonical textual form: every
    /// definition in index order, one per line. The result is a pure
    /// function of the document model, so printing is deterministic.
    #[verifier::loop_isolation(false)]
    pub fn to_sdl(&self) -> (r: String)
        requires
            self@.wf(),
        ensures
            r@ == document_text(self@),
    {
        let mut out = String::new();
        let n = self.definitions.len();
        let mut j: usize = 0;
        proof {
            assert(self@.definitions.take(0) =~= Seq::<AstDefinition>::empty());
        }
        while j < n
            invariant
                j <= n,
                out@ == definitions_text(self@, self@.definitions.take(j as int)),
            decreases n - j,
        {
            if j > 0 {
                out.append("\n");
            }
            let entry = self.definitions[j];
            proof {
                assert(entry == self@.definitions[j as int]);
                assert(definition_entry_wf(self@.definitions[j as int], self@));
            }
            match entry {
                AstDefinition::Schema(id) => print_schema(self, id, &mut out),
                AstDefinition::Scalar(id) => print_scalar(self, id, &mut out),
                AstDefinition::Object(id) => print_object(self, id, &mut out),
                AstDefinition::Interface(id) => print_interface(self, id, &mut out),
                AstDefinition::Union(id) => print_union(self, id, &mut out),
                AstDefinition::Enum(id) => print_enum(self, id, &mut out),
                AstDefinition::InputObject(id) => print_input_object(self, id, &mut out),
            }
            proof {
                assert(self@.definitions.take(j as int + 1).drop_last() =~= self@.definitions.take(
                    j as int));
                assert(self@.definitions.take(j as int + 1).last() == self@.definitions[j as int]);
                assert(out@ =~= definitions_text(self@, self@.definitions.take(j as int + 1)));
            }
            j = j + 1;
        }
        proof {
            assert(self@.definitions.take(n as int) =~= self@.definitions);
        }
        out
    }
}

} // verus!
