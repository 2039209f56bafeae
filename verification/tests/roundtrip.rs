use cynic_parser::parser::parse_type_system_document;

fn roundtrip(src: &str) {
    let ast = parse_type_system_document(src).expect("parse failed");
    let out = ast.to_sdl();
    assert_eq!(src, out);
}

fn double_roundtrip(src: &str) {
    let ast = parse_type_system_document(src).expect("parse failed");
    let once = ast.to_sdl();
    let ast2 = parse_type_system_document(&once).expect("reparse failed");
    let twice = ast2.to_sdl();
    assert_eq!(once, twice);
}

#[test]
fn concrete_scenario_object_with_default_argument() {
    // One object, one field, one argument with a default; printing must
    // reproduce the input exactly.
    let src = "type Query { field(x: Int = 1): String! }";
    let ast = parse_type_system_document(src).expect("parse failed");

    assert_eq!(ast.definition_count(), 1);
    let entry = ast.lookup_definition(cynic_parser::ids::DefinitionId(0));
    let oid = match entry {
        cynic_parser::ast::AstDefinition::Object(oid) => oid,
        _ => panic!("expected an object definition"),
    };
    let obj = ast.read_object(oid);
    assert_eq!(obj.name(), "Query");
    let fields = obj.fields();
    assert_eq!(fields.len(), 1);
    assert_eq!(fields[0].name(), "field");
    let ty = fields[0].ty();
    assert_eq!(ast.lookup_string(ty.name), "String");
    assert_eq!(ty.wrappers, vec![cynic_parser::ast::WrappingType::NonNull]);
    let args = fields[0].arguments();
    assert_eq!(args.len(), 1);
    assert_eq!(args[0].name(), "x");
    assert_eq!(ast.lookup_string(args[0].ty().name), "Int");
    assert!(args[0].ty().wrappers.is_empty());
    match args[0].default_value() {
        Some(cynic_parser::ast::Value::Int(1)) => {},
        other => panic!("unexpected default: {:?}", other.is_some()),
    }

    assert_eq!(ast.to_sdl(), src);
}

#[test]
fn type_wrapper_roundtrip() {
    // `[String!]!` must decompose innermost-first and print back exactly.
    let src = "type Q { f: [String!]! }";
    let ast = parse_type_system_document(src).expect("parse failed");
    let oid = match ast.lookup_definition(cynic_parser::ids::DefinitionId(0)) {
        cynic_parser::ast::AstDefinition::Object(oid) => oid,
        _ => panic!("expected an object definition"),
    };
    let obj = ast.read_object(oid);
    let fields = obj.fields();
    let ty = fields[0].ty();
    assert_eq!(ast.lookup_string(ty.name), "String");
    assert_eq!(
        ty.wrappers,
        vec![
            cynic_parser::ast::WrappingType::NonNull,
            cynic_parser::ast::WrappingType::List,
            cynic_parser::ast::WrappingType::NonNull,
        ]
    );
    assert_eq!(ast.to_sdl(), src);
}

#[test]
fn asymmetric_wrappers_differ() {
    // `[String]!` and `[String!]` are different types and must print apart.
    let a = parse_type_system_document("type Q { f: [String]! }").unwrap();
    let b = parse_type_system_document("type Q { f: [String!] }").unwrap();
    assert_ne!(a.to_sdl(), b.to_sdl());
}

#[test]
fn value_nesting() {
    // `x: [1, 2, {a: 3}]` keeps its shape and order.
    let src = "scalar S @foo(x: [1, 2, {a: 3}])";
    let ast = parse_type_system_document(src).expect("parse failed");
    let sid = match ast.lookup_definition(cynic_parser::ids::DefinitionId(0)) {
        cynic_parser::ast::AstDefinition::Scalar(sid) => sid,
        _ => panic!("expected a scalar definition"),
    };
    let scalar = ast.lookup_scalar(sid);
    assert_eq!(scalar.directives.len(), 1);
    let directive = ast.lookup_directive(scalar.directives[0]);
    assert_eq!(ast.lookup_string(directive.name), "foo");
    assert_eq!(directive.arguments.len(), 1);
    let arg = ast.lookup_argument(directive.arguments[0]);
    assert_eq!(ast.lookup_string(arg.name), "x");
    let list = ast.lookup_value(arg.value);
    let items = match list {
        cynic_parser::ast::Value::List(items) => items,
        _ => panic!("expected a list value"),
    };
    assert_eq!(items.len(), 3);
    assert!(matches!(ast.lookup_value(items[0]), cynic_parser::ast::Value::Int(1)));
    assert!(matches!(ast.lookup_value(items[1]), cynic_parser::ast::Value::Int(2)));
    let entries = match ast.lookup_value(items[2]) {
        cynic_parser::ast::Value::Object(entries) => entries,
        _ => panic!("expected an object value"),
    };
    assert_eq!(entries.len(), 1);
    assert_eq!(ast.lookup_string(entries[0].0), "a");
    assert!(matches!(ast.lookup_value(entries[0].1), cynic_parser::ast::Value::Int(3)));

    assert_eq!(ast.to_sdl(), src);
}

#[test]
fn roundtrip_kitchen_sink() {
    roundtrip("\"the root\" schema { query: Query mutation: M }");
    roundtrip("scalar DateTime @specified(by: \"rfc\")");
    roundtrip("type T implements A & B @tag { a: Int b: [T] }");
    roundtrip("interface A { x(limit: Int = 10, after: ID): [Int!]! }");
    roundtrip("union U = A | B | C");
    roundtrip("enum Color @tag { \"warm\" RED GREEN BLUE @deprecated }");
    roundtrip("input Filter { name: String eq: [String] = null }");
}

#[test]
fn roundtrip_mixed_document() {
    roundtrip("scalar A\ntype B { x: A }\nenum C { ONE TWO }");
}

#[test]
fn roundtrip_values() {
    roundtrip("scalar S @args(i: -42, f: 1.5e10, s: \"hi\", b: true, n: null, e: RED, v: $var)");
    roundtrip("scalar S @args(empty: [], obj: {a: 1, b: [2, 3]})");
}

#[test]
fn roundtrip_descriptions() {
    roundtrip("\"a scalar\" scalar S");
    roundtrip("type T { \"described field\" f(\"an arg\" x: Int): Int }");
}

#[test]
fn double_roundtrip_reaches_fixed_point() {
    // Inputs with non-canonical whitespace stabilise after one print.
    double_roundtrip("type   Query  {\n  a :  Int\n  b : String ,\n}");
    double_roundtrip("union  U  =  A  |  B");
    double_roundtrip("enum E{A,B,C}");
}

#[test]
fn order_preservation_across_kinds() {
    // Mixed top-level kinds keep their source order in the index.
    let src = "type A { x: Int }\nscalar B\nenum C { V }";
    let ast = parse_type_system_document(src).expect("parse failed");
    assert_eq!(ast.definition_count(), 3);
    assert!(matches!(
        ast.lookup_definition(cynic_parser::ids::DefinitionId(0)),
        cynic_parser::ast::AstDefinition::Object(_)
    ));
    assert!(matches!(
        ast.lookup_definition(cynic_parser::ids::DefinitionId(1)),
        cynic_parser::ast::AstDefinition::Scalar(_)
    ));
    assert!(matches!(
        ast.lookup_definition(cynic_parser::ids::DefinitionId(2)),
        cynic_parser::ast::AstDefinition::Enum(_)
    ));
    assert_eq!(ast.to_sdl(), src);
}

#[test]
fn parse_errors_fail_whole_document() {
    assert!(parse_type_system_document("type").is_none());
    assert!(parse_type_system_document("type Q {").is_none());
    assert!(parse_type_system_document("type Q { f: }").is_none());
    assert!(parse_type_system_document("frobnicate Q").is_none());
    assert!(parse_type_system_document("scalar S @d(x: )").is_none());
    assert!(parse_type_system_document("schema { illegal: Q }").is_none());
    assert!(parse_type_system_document("scalar S @d(x: \"a\\\"b\")").is_none());
}

#[test]
fn int_bounds_are_parse_time_errors() {
    // 32-bit signed bounds hold; anything outside fails to parse.
    let ast = parse_type_system_document("scalar S @d(x: 2147483647, y: -2147483648)").unwrap();
    assert_eq!(ast.to_sdl(), "scalar S @d(x: 2147483647, y: -2147483648)");
    assert!(parse_type_system_document("scalar S @d(x: 2147483648)").is_none());
    assert!(parse_type_system_document("scalar S @d(x: -2147483649)").is_none());
    assert!(parse_type_system_document("scalar S @d(x: 99999999999999)").is_none());
}

#[test]
fn empty_document_prints_empty() {
    let ast = parse_type_system_document("").expect("parse failed");
    assert_eq!(ast.definition_count(), 0);
    assert_eq!(ast.to_sdl(), "");
    let ast = parse_type_system_document("   \n\t , ").expect("parse failed");
    assert_eq!(ast.to_sdl(), "");
}

#[test]
fn float_literal_text_is_preserved() {
    roundtrip("scalar S @d(x: 3.25, y: 1e-7, z: -0.5)");
}
