use cynic_parser::ast::{
    AstDefinition, ObjectDefinition, ScalarDefinition, FieldDefinition, Type, OperationType,
    StringLiteral, Value,
};
use cynic_parser::builder::AstBuilder;
use cynic_parser::ids::{DefinitionId, StringLiteralId};
use cynic_parser::Span;

#[test]
fn interning_is_idempotent_and_injective() {
    let mut b = AstBuilder::new();
    let a1 = b.intern_string("hello");
    let a2 = b.intern_string("hello");
    let c = b.intern_string("world");
    assert_eq!(a1, a2);
    assert_ne!(a1, c);
    let d = b.ident("hello");
    assert_eq!(a1, d);
    let ast = b.finish();
    assert_eq!(ast.lookup_string(a1), "hello");
    assert_eq!(ast.lookup_string(c), "world");
}

#[test]
fn builder_preserves_declaration_order() {
    let mut b = AstBuilder::new();
    let name_a = b.ident("A");
    let name_b = b.ident("B");
    let name_c = b.ident("C");
    b.scalar_definition(ScalarDefinition {
        name: name_a,
        description: None,
        directives: Vec::new(),
        span: Span::new(0, 0),
    });
    b.object_definition(ObjectDefinition {
        name: name_b,
        description: None,
        fields: Vec::new(),
        directives: Vec::new(),
        implements: Vec::new(),
        span: Span::new(0, 0),
    });
    b.scalar_definition(ScalarDefinition {
        name: name_c,
        description: None,
        directives: Vec::new(),
        span: Span::new(0, 0),
    });
    let ast = b.finish();
    assert_eq!(ast.definition_count(), 3);
    let names: Vec<String> = (0..3)
        .map(|i| match ast.lookup_definition(DefinitionId(i)) {
            AstDefinition::Scalar(id) => ast.lookup_string(ast.lookup_scalar(id).name).to_owned(),
            AstDefinition::Object(id) => ast.lookup_string(ast.lookup_object(id).name).to_owned(),
            _ => panic!("unexpected kind"),
        })
        .collect();
    assert_eq!(names, vec!["A", "B", "C"]);
}

#[test]
fn store_description_patches_each_kind() {
    let mut b = AstBuilder::new();
    let name = b.ident("S");
    let def = b.scalar_definition(ScalarDefinition {
        name,
        description: None,
        directives: Vec::new(),
        span: Span::new(0, 8),
    });
    let desc = b.intern_string("a scalar");
    b.store_description(def, Some(desc));
    let name2 = b.ident("O");
    let def2 = b.object_definition(ObjectDefinition {
        name: name2,
        description: None,
        fields: Vec::new(),
        directives: Vec::new(),
        implements: Vec::new(),
        span: Span::new(0, 0),
    });
    b.store_description(def2, None);
    let ast = b.finish();
    assert_eq!(ast.to_sdl(), "\"a scalar\" scalar S\ntype O");
}

#[test]
fn built_document_prints_like_parsed_one() {
    let mut b = AstBuilder::new();
    let query = b.ident("Query");
    let field_name = b.ident("field");
    let string_name = b.ident("String");
    let ty = b.type_reference(Type {
        name: string_name,
        wrappers: vec![cynic_parser::ast::WrappingType::NonNull],
    });
    let fid = b.field_definition(FieldDefinition {
        name: field_name,
        ty,
        arguments: Vec::new(),
        description: None,
        directives: Vec::new(),
        span: Span::new(0, 0),
    });
    b.object_definition(ObjectDefinition {
        name: query,
        description: None,
        fields: vec![fid],
        directives: Vec::new(),
        implements: Vec::new(),
        span: Span::new(0, 0),
    });
    let ast = b.finish();
    assert_eq!(ast.to_sdl(), "type Query { field: String! }");
}

#[test]
fn value_handles_recurse_without_ownership() {
    let mut b = AstBuilder::new();
    let one = b.value(Value::Int(1));
    let two = b.value(Value::Int(-2));
    let list = b.value(Value::List(vec![one, two]));
    let ast = b.finish();
    match ast.lookup_value(list) {
        Value::List(items) => {
            assert_eq!(items.len(), 2);
            assert!(matches!(ast.lookup_value(items[0]), Value::Int(1)));
            assert!(matches!(ast.lookup_value(items[1]), Value::Int(-2)));
        }
        _ => panic!("expected a list"),
    }
}

#[test]
fn string_literals_remember_quoting_style() {
    let mut b = AstBuilder::new();
    let text = b.intern_string("doc");
    let lid = b.string_literal(StringLiteral::Normal(text));
    let lid2 = b.string_literal(StringLiteral::Block(text));
    let ast = b.finish();
    assert!(matches!(ast.lookup_string_literal(lid), StringLiteral::Normal(_)));
    assert!(matches!(ast.lookup_string_literal(lid2), StringLiteral::Block(_)));
    assert_eq!(StringLiteralId(0), lid);
}

#[test]
fn operation_type_keywords() {
    assert_eq!(OperationType::Query.as_str(), "query");
    assert_eq!(OperationType::Mutation.as_str(), "mutation");
    assert_eq!(OperationType::Subscription.as_str(), "subscription");
}

#[test]
fn readers_expose_interface_shape() {
    let src = "interface Node implements A & B { id: ID! }";
    let ast = cynic_parser::parser::parse_type_system_document(src).unwrap();
    let iid = match ast.lookup_definition(DefinitionId(0)) {
        AstDefinition::Interface(iid) => iid,
        _ => panic!("expected an interface"),
    };
    let reader = ast.read_interface(iid);
    assert_eq!(reader.name(), "Node");
    assert_eq!(reader.description(), None);
    assert_eq!(reader.implements_interfaces(), vec!["A", "B"]);
    let fields = reader.fields();
    assert_eq!(fields.len(), 1);
    assert_eq!(fields[0].name(), "id");
    assert!(reader.directives().is_empty());
}

#[test]
fn readers_expose_directive_arguments() {
    let src = "type T @tag(level: 3) { f: Int }";
    let ast = cynic_parser::parser::parse_type_system_document(src).unwrap();
    let oid = match ast.lookup_definition(DefinitionId(0)) {
        AstDefinition::Object(oid) => oid,
        _ => panic!("expected an object"),
    };
    let reader = ast.read_object(oid);
    let directives = reader.directives();
    assert_eq!(directives.len(), 1);
    assert_eq!(directives[0].name(), "tag");
    let args = directives[0].arguments();
    assert_eq!(args.len(), 1);
    assert_eq!(args[0].name(), "level");
    assert!(matches!(args[0].value(), Value::Int(3)));
}
