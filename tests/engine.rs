use accord::config::{
    fill_placeholders, interpolate, path_to_string, unset_variables, AppConfig, ConfigError, PathError, PathText, RawAppConfig,
};
use accord::emit::emit_declaration;
use accord::error::GenError;
use accord::generate::{generate_declarations, generate_typescript, render};
use accord::model::{
    find_type, Directive, DirectiveLocation, EnumValue, Field, InputValue, RootType, Schema, Type, TypeKind, TypeRef,
};
use accord::resolve::resolve;
use accord::scalar::ScalarConfig;

fn s(x: &str) -> String {
    x.to_string()
}

fn scalar_ref(n: &str) -> TypeRef {
    TypeRef::Scalar { name: s(n) }
}

fn object_ref(n: &str) -> TypeRef {
    TypeRef::Object { name: s(n) }
}

fn non_null(t: TypeRef) -> TypeRef {
    TypeRef::NonNull { of_type: Box::new(t) }
}

fn list(t: TypeRef) -> TypeRef {
    TypeRef::List { of_type: Box::new(t) }
}

fn scalar(n: &str) -> Type {
    Type::Scalar { name: s(n), description: None }
}

fn field(n: &str, t: TypeRef) -> Field {
    Field { name: s(n), description: None, args: Vec::new(), of_type: t, is_deprecated: false, deprecation_reason: None }
}

fn object(n: &str, fields: Vec<Field>, interfaces: Vec<TypeRef>) -> Type {
    Type::Object { name: s(n), description: None, fields, interfaces }
}

fn input(n: &str, t: TypeRef, default_value: Option<&str>) -> InputValue {
    InputValue { name: s(n), description: None, of_type: t, default_value: default_value.map(s) }
}

fn schema(types: Vec<Type>, query: &str) -> Schema {
    Schema {
        types,
        query_type: RootType { name: s(query) },
        mutation_type: None,
        subscription_type: None,
        directives: Vec::new(),
    }
}

fn builtins() -> Vec<Type> {
    vec![scalar("String"), scalar("Int"), scalar("Float"), scalar("Boolean"), scalar("ID")]
}

fn names(decls: &[accord::generate::Declaration]) -> Vec<String> {
    decls.iter().map(|d| d.name.clone()).collect()
}

#[test]
fn resolves_non_null_list_of_non_null_strings() {
    let types = builtins();
    let cfg = ScalarConfig::new();
    let t = non_null(list(non_null(scalar_ref("String"))));
    let (expr, nullable) = resolve(&t, &types, &cfg).unwrap();
    assert_eq!(expr, "Array<string>");
    assert!(!nullable);
}

#[test]
fn resolves_nullable_list_of_non_null_ints() {
    let types = builtins();
    let cfg = ScalarConfig::new();
    let t = list(non_null(scalar_ref("Int")));
    let (expr, nullable) = resolve(&t, &types, &cfg).unwrap();
    assert_eq!(expr, "Array<number>");
    assert!(nullable);
}

#[test]
fn resolves_nullable_items_with_null_union() {
    let types = builtins();
    let cfg = ScalarConfig::new();
    let t = non_null(list(scalar_ref("Boolean")));
    let (expr, nullable) = resolve(&t, &types, &cfg).unwrap();
    assert_eq!(expr, "Array<boolean | null>");
    assert!(!nullable);
}

#[test]
fn resolve_reports_missing_type() {
    let types = builtins();
    let cfg = ScalarConfig::new();
    let t = non_null(object_ref("Missing"));
    match resolve(&t, &types, &cfg) {
        Err(GenError::Resolution(n)) => assert_eq!(n, "Missing"),
        other => panic!("unexpected {:?}", other),
    }
}

#[test]
fn scalar_table_overrides_and_falls_back() {
    let mut cfg = ScalarConfig::new();
    assert_eq!(cfg.map_scalar(&s("ID")), "string");
    assert_eq!(cfg.map_scalar(&s("Float")), "number");
    assert_eq!(cfg.map_scalar(&s("Boolean")), "boolean");
    assert_eq!(cfg.map_scalar(&s("DateTime")), "unknown");
    cfg.overrides.push((s("DateTime"), s("string")));
    cfg.overrides.push((s("DateTime"), s("Date")));
    cfg.fallback = s("any");
    assert_eq!(cfg.map_scalar(&s("DateTime")), "string");
    assert_eq!(cfg.map_scalar(&s("JSON")), "any");
}

#[test]
fn generation_is_repeatable() {
    let mut types = builtins();
    types.push(object("Query", vec![field("name", scalar_ref("String")), field("me", object_ref("User"))], vec![]));
    types.push(object("User", vec![field("id", non_null(scalar_ref("ID")))], vec![]));
    let sc = schema(types, "Query");
    let cfg = ScalarConfig::new();
    let first = generate_typescript(&sc, &cfg).unwrap();
    let second = generate_typescript(&sc, &cfg).unwrap();
    assert_eq!(first, second);
    assert_eq!(
        first,
        "export type String = string;\n\nexport type ID = string;\n\n\
         export interface Query {\n  name: string | null;\n  me: User | null;\n}\n\n\
         export interface User {\n  id: string;\n}\n\n"
    );
}

#[test]
fn each_type_declared_once() {
    let mut types = builtins();
    types.push(object(
        "Query",
        vec![
            field("a", object_ref("User")),
            field("b", non_null(object_ref("User"))),
            field("c", list(object_ref("User"))),
        ],
        vec![],
    ));
    types.push(object("User", vec![field("friend", object_ref("User"))], vec![]));
    let sc = schema(types, "Query");
    let decls = generate_declarations(&sc, &ScalarConfig::new()).unwrap();
    assert_eq!(names(&decls), vec![s("Query"), s("User")]);
    let text = generate_typescript(&sc, &ScalarConfig::new()).unwrap();
    assert_eq!(text.matches("export interface User ").count(), 1);
}

#[test]
fn self_reference_terminates() {
    let mut types = builtins();
    types.push(object("A", vec![field("next", object_ref("A"))], vec![]));
    let sc = schema(types, "A");
    let decls = generate_declarations(&sc, &ScalarConfig::new()).unwrap();
    assert_eq!(names(&decls), vec![s("A")]);
    assert_eq!(decls[0].text, "export interface A {\n  next: A | null;\n}\n\n");
}

#[test]
fn mutual_reference_through_union_terminates() {
    let mut types = builtins();
    types.push(object("A", vec![field("other", TypeRef::Union { name: s("AB") })], vec![]));
    types.push(object("B", vec![field("back", TypeRef::Union { name: s("AB") })], vec![]));
    types.push(Type::Union {
        name: s("AB"),
        description: None,
        possible_types: Some(vec![object_ref("A"), object_ref("B")]),
    });
    let sc = schema(types, "A");
    let decls = generate_declarations(&sc, &ScalarConfig::new()).unwrap();
    assert_eq!(names(&decls), vec![s("A"), s("B"), s("AB")]);
    assert_eq!(decls[2].text, "export type AB =\n  | A\n  | B\n;\n\n");
}

#[test]
fn object_extends_its_interfaces() {
    let mut types = builtins();
    types.push(Type::Interface {
        name: s("Named"),
        description: None,
        fields: vec![field("name", non_null(scalar_ref("String")))],
        possible_types: None,
    });
    types.push(Type::Interface {
        name: s("Aged"),
        description: None,
        fields: vec![field("age", scalar_ref("Int"))],
        possible_types: None,
    });
    types.push(object(
        "Person",
        vec![field("id", non_null(scalar_ref("ID")))],
        vec![TypeRef::Interface { name: s("Named") }, TypeRef::Interface { name: s("Aged") }],
    ));
    let sc = schema(types, "Person");
    let text = generate_typescript(&sc, &ScalarConfig::new()).unwrap();
    assert!(text.contains("export interface Person extends Named, Aged {\n  id: string;\n}\n"));
    assert!(text.contains("export interface Named {\n  name: string;\n}\n"));
    assert!(text.contains("export interface Aged {\n  age: number | null;\n}\n"));
}

#[test]
fn enum_renders_all_values_with_deprecation() {
    let values = vec![
        EnumValue { name: s("ACTIVE"), description: None, is_deprecated: false, deprecation_reason: None },
        EnumValue {
            name: s("ARCHIVED"),
            description: None,
            is_deprecated: true,
            deprecation_reason: Some(s("use ACTIVE")),
        },
    ];
    let t = Type::Enum { name: s("Status"), description: None, enum_values: values };
    let text = emit_declaration(&t, &builtins(), &ScalarConfig::new()).unwrap();
    assert_eq!(
        text,
        "export type Status =\n  | \"ACTIVE\"\n  | \"ARCHIVED\" /* deprecated: use ACTIVE */\n;\n\n"
    );
}

#[test]
fn enum_without_reason_is_still_annotated() {
    let values = vec![EnumValue { name: s("OLD"), description: None, is_deprecated: true, deprecation_reason: None }];
    let t = Type::Enum { name: s("E"), description: None, enum_values: values };
    let text = emit_declaration(&t, &builtins(), &ScalarConfig::new()).unwrap();
    assert_eq!(text, "export type E =\n  | \"OLD\" /* deprecated */\n;\n\n");
}

#[test]
fn dangling_reference_fails_whole_run() {
    let mut types = builtins();
    types.push(object("Query", vec![field("x", object_ref("Ghost"))], vec![]));
    let sc = schema(types, "Query");
    match generate_typescript(&sc, &ScalarConfig::new()) {
        Err(GenError::SchemaConsistency(n)) => assert_eq!(n, "Ghost"),
        other => panic!("unexpected {:?}", other),
    }
}

#[test]
fn missing_query_root_fails() {
    let sc = schema(builtins(), "Query");
    match generate_typescript(&sc, &ScalarConfig::new()) {
        Err(GenError::SchemaConsistency(n)) => assert_eq!(n, "Query"),
        other => panic!("unexpected {:?}", other),
    }
}

#[test]
fn union_without_members_is_a_declaration_error() {
    let mut types = builtins();
    types.push(object("Query", vec![field("u", TypeRef::Union { name: s("U") })], vec![]));
    types.push(Type::Union { name: s("U"), description: None, possible_types: None });
    let sc = schema(types, "Query");
    match generate_typescript(&sc, &ScalarConfig::new()) {
        Err(GenError::Declaration(n)) => assert_eq!(n, "U"),
        other => panic!("unexpected {:?}", other),
    }
}

#[test]
fn empty_enum_is_a_declaration_error() {
    let t = Type::Enum { name: s("E"), description: None, enum_values: Vec::new() };
    match emit_declaration(&t, &builtins(), &ScalarConfig::new()) {
        Err(GenError::Declaration(n)) => assert_eq!(n, "E"),
        other => panic!("unexpected {:?}", other),
    }
}

#[test]
fn wrapper_is_never_declared() {
    let t = Type::List { of_type: scalar_ref("Int") };
    assert!(matches!(emit_declaration(&t, &builtins(), &ScalarConfig::new()), Err(GenError::Declaration(_))));
}

#[test]
fn unreachable_types_are_left_out() {
    let mut types = builtins();
    types.push(object("Unused", vec![field("x", object_ref("Ghost"))], vec![]));
    types.push(object("Query", vec![field("n", scalar_ref("Int"))], vec![]));
    let sc = schema(types, "Query");
    let decls = generate_declarations(&sc, &ScalarConfig::new()).unwrap();
    assert_eq!(names(&decls), vec![s("Int"), s("Query")]);
}

#[test]
fn input_objects_and_arguments() {
    let mut types = builtins();
    let mut find = field("find", list(non_null(object_ref("Query"))));
    find.args.push(input("filter", non_null(TypeRef::InputObject { name: s("Filter") }), None));
    types.push(object("Query", vec![find], vec![]));
    types.push(Type::InputObject {
        name: s("Filter"),
        description: None,
        input_fields: vec![
            input("limit", non_null(scalar_ref("Int")), Some("10")),
            input("term", scalar_ref("String"), None),
            input("ids", non_null(list(scalar_ref("ID"))), None),
        ],
    });
    let sc = schema(types, "Query");
    let decls = generate_declarations(&sc, &ScalarConfig::new()).unwrap();
    assert_eq!(names(&decls), vec![s("String"), s("Int"), s("ID"), s("Query"), s("Filter")]);
    assert_eq!(decls[3].text, "export interface Query {\n  find: Array<Query> | null;\n}\n\n");
    assert_eq!(
        decls[4].text,
        "export interface Filter {\n  limit?: number;\n  term?: string;\n  ids: Array<string | null>;\n}\n\n"
    );
}

#[test]
fn directive_arguments_are_roots() {
    let mut types = builtins();
    types.push(object("Query", vec![], vec![]));
    let mut sc = schema(types, "Query");
    sc.directives.push(Directive {
        description: None,
        name: s("skip"),
        locations: vec![DirectiveLocation::Field],
        args: vec![input("if", non_null(scalar_ref("Boolean")), None)],
    });
    sc.mutation_type = Some(RootType { name: s("Query") });
    let decls = generate_declarations(&sc, &ScalarConfig::new()).unwrap();
    assert_eq!(names(&decls), vec![s("Boolean"), s("Query")]);
    assert_eq!(render(&decls), "export type Boolean = boolean;\n\nexport interface Query {\n}\n\n");
}

#[test]
fn custom_scalar_uses_table() {
    let mut types = builtins();
    types.push(scalar("DateTime"));
    types.push(object("Query", vec![field("at", non_null(scalar_ref("DateTime")))], vec![]));
    let sc = schema(types, "Query");
    let mut cfg = ScalarConfig::new();
    cfg.overrides.push((s("DateTime"), s("string")));
    let text = generate_typescript(&sc, &cfg).unwrap();
    assert_eq!(text, "export type DateTime = string;\n\nexport interface Query {\n  at: string;\n}\n\n");
}

#[test]
fn model_helpers() {
    let types = builtins();
    assert_eq!(find_type(&types, &s("Int")), Some(1));
    assert_eq!(find_type(&types, &s("Nope")), None);
    assert_eq!(types[0].kind(), TypeKind::Scalar);
    assert_eq!(types[2].name(), Some(&s("Float")));
    let r = TypeRef::from(Type::NonNull { of_type: scalar_ref("Int") });
    assert_eq!(r.base_name(), "Int");
    assert!(matches!(r, TypeRef::NonNull { .. }));
}

#[test]
fn reference_as_typescript() {
    let cfg = ScalarConfig::new();
    assert_eq!(list(non_null(scalar_ref("Float"))).as_typescript(&cfg), "Array<number> | null");
    assert_eq!(non_null(object_ref("User")).as_typescript(&cfg), "User");
    assert_eq!(TypeRef::from(scalar("JSON")).as_typescript(&cfg), "unknown | null");
}

#[test]
fn raw_config_defaults() {
    let raw = RawAppConfig { schema: s("http://x"), no_ssl: None, document: None, emit_schema: Some(true) };
    assert!(!raw.no_ssl());
    assert!(raw.emit_schema());
    assert_eq!(raw.document_path(), Ok(None));
    let raw = RawAppConfig {
        schema: s("http://x"),
        no_ssl: Some(true),
        document: Some(PathText::Utf8(s("docs/query.graphql"))),
        emit_schema: None,
    };
    assert!(raw.no_ssl());
    assert!(!raw.emit_schema());
    assert_eq!(raw.document_path(), Ok(Some(s("docs/query.graphql"))));
    assert_eq!(path_to_string(&PathText::Utf8(s("schema/out.ts"))), Ok(s("schema/out.ts")));
    assert_eq!(path_to_string(&PathText::NotUtf8), Err(PathError::NotUtf8));
    let raw = RawAppConfig { schema: s("http://x"), no_ssl: None, document: Some(PathText::NotUtf8), emit_schema: None };
    assert_eq!(raw.document_path(), Err(PathError::NotUtf8));
}

fn env(pairs: &[(&str, &str)]) -> Vec<(String, String)> {
    pairs.iter().map(|(k, v)| (s(k), s(v))).collect()
}

#[test]
fn interpolates_placeholders_from_environment() {
    let e = env(&[("HOST", "example.com"), ("PORT", "8080"), ("HOST", "ignored")]);
    let out = interpolate(&s("https://{{HOST}}:{{PORT}}/graphql"), &e).unwrap();
    assert_eq!(out, "https://example.com:8080/graphql");
    assert_eq!(interpolate(&s("http://plain/"), &e).unwrap(), "http://plain/");
}

#[test]
fn interpolation_reports_missing_variable() {
    match interpolate(&s("https://{{NOPE}}/"), &env(&[])) {
        Err(ConfigError::MissingEnvVar(n)) => assert_eq!(n, "NOPE"),
        other => panic!("unexpected {:?}", other),
    }
}

#[test]
fn fill_placeholders_exact() {
    let pieces = vec![s("a"), s("b"), s("")];
    let groups = vec![Some(s("X")), Some(s("Y"))];
    assert_eq!(fill_placeholders(&pieces, &groups, &env(&[("X", "1"), ("Y", "2")])).unwrap(), "a1b2");
    assert!(matches!(fill_placeholders(&pieces, &groups, &env(&[("X", "1")])), Err(ConfigError::MissingEnvVar(_))));
    assert!(matches!(fill_placeholders(&pieces, &vec![None, None], &env(&[])), Err(ConfigError::Placeholder)));
    assert!(matches!(fill_placeholders(&pieces, &vec![], &env(&[])), Err(ConfigError::Placeholder)));
}

#[test]
fn config_from_raw() {
    let raw = RawAppConfig {
        schema: s("https://{{HOST}}/graphql"),
        no_ssl: Some(true),
        document: None,
        emit_schema: None,
    };
    let cfg = AppConfig::from_raw(raw, &env(&[("HOST", "api.test")])).unwrap();
    assert_eq!(cfg.schema.as_str(), "https://api.test/graphql");
    assert_eq!(cfg.schema_text, "https://api.test/graphql");
    assert!(cfg.no_ssl);
    assert!(!cfg.emit_schema);
    assert_eq!(cfg.document_path, None);
    let raw = RawAppConfig { schema: s("not a url"), no_ssl: None, document: None, emit_schema: None };
    assert!(matches!(AppConfig::from_raw(raw, &env(&[])), Err(ConfigError::InvalidUrl(_))));
}

#[test]
fn type_as_typescript() {
    let cfg = ScalarConfig::new();
    assert_eq!(object("User", vec![], vec![]).as_typescript(&cfg), "User | null");
    assert_eq!(Type::NonNull { of_type: list(scalar_ref("ID")) }.as_typescript(&cfg), "Array<string | null>");
    let r = non_null(object_ref("A"));
    assert_eq!(r.duplicate().as_typescript(&cfg), "A");
}

#[test]
fn interface_possible_types_are_not_followed() {
    let mut types = builtins();
    types.push(Type::Interface {
        name: s("Node"),
        description: None,
        fields: vec![field("id", non_null(scalar_ref("ID")))],
        possible_types: Some(vec![object_ref("Hidden")]),
    });
    types.push(object("Hidden", vec![], vec![TypeRef::Interface { name: s("Node") }]));
    types.push(object("Query", vec![field("node", TypeRef::Interface { name: s("Node") })], vec![]));
    let sc = schema(types, "Query");
    let decls = generate_declarations(&sc, &ScalarConfig::new()).unwrap();
    assert_eq!(names(&decls), vec![s("ID"), s("Node"), s("Query")]);
}

#[test]
fn config_example_com() {
    let raw = RawAppConfig {
        schema: s("https://example.com/graphql"),
        no_ssl: None,
        document: Some(PathText::Utf8(s("q.graphql"))),
        emit_schema: Some(true),
    };
    let cfg = AppConfig::from_raw(raw, &env(&[])).unwrap();
    assert_eq!(cfg.schema.as_str(), "https://example.com/graphql");
    assert_eq!(cfg.schema_text, "https://example.com/graphql");
    assert!(!cfg.no_ssl);
    assert_eq!(cfg.document_path, Some(s("q.graphql")));
    assert!(cfg.emit_schema);
}

#[test]
fn config_errors() {
    let raw = RawAppConfig { schema: s("https://{{HOST}}/"), no_ssl: None, document: None, emit_schema: None };
    match AppConfig::from_raw(raw, &env(&[])) {
        Err(ConfigError::MissingEnvVar(n)) => assert_eq!(n, "HOST"),
        other => panic!("unexpected {:?}", other),
    }
    let raw = RawAppConfig {
        schema: s("https://example.com/"),
        no_ssl: None,
        document: Some(PathText::NotUtf8),
        emit_schema: None,
    };
    assert!(matches!(AppConfig::from_raw(raw, &env(&[])), Err(ConfigError::DocumentPath)));
}

#[test]
fn lists_every_unset_variable() {
    let e = env(&[("B", "2")]);
    let unset = unset_variables(&s("{{A}}-{{B}}-{{C}}-{{A}}"), &e).unwrap();
    assert_eq!(unset, vec![s("A"), s("C"), s("A")]);
    assert_eq!(unset_variables(&s("none here"), &e).unwrap(), Vec::<String>::new());
}
