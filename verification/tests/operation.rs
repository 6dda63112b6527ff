//! Operations as tools, from the document to the request.

use std::collections::HashMap;
use std::sync::LazyLock;

use apollo_compiler::parser::Parser;
use apollo_compiler::schema::ExtendedType as ApolloType;
use apollo_compiler::validation::Valid;
use apollo_compiler::{ast, Schema};
use apollo_mcp_server::document::type_from_ast;
use apollo_mcp_server::graphql::{
    EnumType, EnumValue, ExtendedType, FieldDefinition, GraphqlSchema, InputField,
    InputObjectType, ObjectType, ScalarType,
};
use apollo_mcp_server::json::Object;
use apollo_mcp_server::notice::{Notice, NoticeLevel};
use apollo_mcp_server::operation::error::OperationError;
use apollo_mcp_server::operation::load::{load_step, tool_character_length, ToolOptions};
use apollo_mcp_server::operation::select::{operation_defs, read_document, Choice, LogLevels};
use apollo_mcp_server::operation::warnings::schema_warnings;
use apollo_mcp_server::operation::{
    Analysis, AnnotationOverrides, MutationMode, Operation, PrivateFieldTree, RawOperation,
};
use apollo_mcp_server::schema_walker::walk::CustomScalarMap;
use apollo_mcp_server::shaken::{ShakenType, TypeKind};
use apollo_mcp_server::string_map::StringMap;
use apollo_mcp_server::tool::Tool;
use serde_json::Value;

// Example schema for tests
static SCHEMA: LazyLock<Valid<Schema>> = LazyLock::new(|| {
    Schema::parse(
        r#"
                type Query {
                    id: String
                    enum: RealEnum
                    customQuery(""" id description """ id: ID!, """ a flag """ flag: Boolean): OutputType
                    testOp: OpResponse
                }
                type Mutation {id: String }

                """
                RealCustomScalar exists
                """
                scalar RealCustomScalar
                input RealInputObject {
                    """
                    optional is a input field that is optional
                    """
                    optional: String

                    """
                    required is a input field that is required
                    """
                    required: String!
                }

                type OpResponse {
                  id: String
                }

                """
                the description for the enum
                """
                enum RealEnum {
                    """
                    ENUM_VALUE_1 is a value
                    """
                    ENUM_VALUE_1

                    """
                    ENUM_VALUE_2 is a value
                    """
                    ENUM_VALUE_2
                }

                """
                custom output type
                """
                type OutputType {
                    id: ID!
                }
            "#,
        "operation.graphql",
    )
    .expect("schema should parse")
    .validate()
    .expect("schema should be valid")
});

/// What is left of the schema for `{ id enum }`.
const ENUM_SHAKEN: &str = r#"
    type Query { id: String enum: RealEnum }
    """the description for the enum"""
    enum RealEnum {
      """ENUM_VALUE_1 is a value"""
      ENUM_VALUE_1
      """ENUM_VALUE_2 is a value"""
      ENUM_VALUE_2
    }
"#;

/// What is left of the schema for the operation with fragments.
const TOOL_DESCRIPTION_SHAKEN: &str = r#"
    type Query {
      """Get a list of A"""
      a(input: String!): [A]!
      """Get a B"""
      b: B
      """Get a Z"""
      z: Z
    }
    """A"""
    type A { d: D }
    """B"""
    type B { d: D u: U }
    """D"""
    type D { e: E f: String }
    """E"""
    enum E { """one""" ONE """two""" TWO }
    """U"""
    union U = M | W
    """M"""
    type M { m: Int }
    """W"""
    type W { w: Int }
    """Z"""
    type Z { zzz: Int }
    input Unused { a: Int }
"#;

fn parse(text: &str) -> Value {
    serde_json::from_str(text).expect("the text is JSON")
}

/// The JSON value with each `"$"` replaced.
fn fill(text: &str, value: &Value) -> Value {
    fn put(template: Value, value: &Value) -> Value {
        match template {
            Value::String(s) if s == "$" => value.clone(),
            Value::Array(items) => items.into_iter().map(|item| put(item, value)).collect(),
            Value::Object(members) => Value::Object(
                members
                    .into_iter()
                    .map(|(name, member)| (name, put(member, value)))
                    .collect(),
            ),
            other => other,
        }
    }
    put(parse(text), value)
}

fn scalar_map(text: &str) -> Result<CustomScalarMap, serde_json::Error> {
    let schemas: Object = serde_json::from_str(text)?;
    let mut map = CustomScalarMap::new();
    for (name, schema) in schemas {
        map.insert(name, schema);
    }
    Ok(map)
}

fn described(text: &Option<apollo_compiler::Node<str>>) -> Option<String> {
    text.as_ref().map(|text| text.to_string())
}

fn extended_type(ty: &ApolloType) -> ExtendedType {
    match ty {
        ApolloType::Scalar(ty) => ExtendedType::Scalar(ScalarType {
            description: described(&ty.description),
        }),
        ApolloType::Object(ty) => ExtendedType::Object(ObjectType {
            fields: ty
                .fields
                .values()
                .map(|field| FieldDefinition {
                    name: field.name.to_string(),
                    description: described(&field.description),
                    ty: type_from_ast(&field.ty),
                })
                .collect(),
        }),
        ApolloType::Interface(_) => ExtendedType::Interface,
        ApolloType::Union(_) => ExtendedType::Union,
        ApolloType::Enum(ty) => ExtendedType::Enum(EnumType {
            description: described(&ty.description),
            values: ty
                .values
                .values()
                .map(|value| EnumValue {
                    name: value.value.to_string(),
                    description: described(&value.description),
                })
                .collect(),
        }),
        ApolloType::InputObject(ty) => ExtendedType::InputObject(InputObjectType {
            description: described(&ty.description),
            fields: ty
                .fields
                .values()
                .map(|field| InputField {
                    name: field.name.to_string(),
                    description: described(&field.description),
                    ty: type_from_ast(&field.ty),
                    has_default: field.default_value.is_some(),
                })
                .collect(),
        }),
    }
}

fn graphql_schema(schema: &Schema) -> GraphqlSchema {
    let mut types = StringMap::new();
    for (name, ty) in &schema.types {
        types.insert(name.to_string(), extended_type(ty));
    }
    let root = |ty| schema.root_operation(ty).map(|name| name.to_string());
    GraphqlSchema {
        types,
        query: root(ast::OperationType::Query),
        mutation: root(ast::OperationType::Mutation),
        subscription: root(ast::OperationType::Subscription),
    }
}

fn shaken_types(sdl: &str) -> Vec<ShakenType> {
    let schema = Schema::parse(sdl, "shaken.graphql").expect("the schema parses");
    schema
        .types
        .iter()
        .map(|(name, ty)| ShakenType {
            name: name.to_string(),
            kind: match ty {
                ApolloType::Scalar(_) => TypeKind::Scalar,
                ApolloType::Object(_) => TypeKind::Object,
                ApolloType::Interface(_) => TypeKind::Interface,
                ApolloType::Union(_) => TypeKind::Union,
                ApolloType::Enum(_) => TypeKind::Enum,
                ApolloType::InputObject(_) => TypeKind::InputObject,
            },
            built_in: ty.is_built_in(),
            sdl: ty.serialize().to_string(),
            minified: String::new(),
        })
        .collect()
}

/// The schema of a response with the given data.
fn response_schema(data: &str) -> Value {
    let mut schema = parse(
        r#"{
            "type": "object",
            "properties": {
                "data": {"type": "object"},
                "errors": {
                    "type": "array",
                    "items": {
                        "type": "object",
                        "properties": {
                            "message": {"type": "string"},
                            "locations": {
                                "type": "array",
                                "items": {
                                    "type": "object",
                                    "properties": {
                                        "line": {"type": "integer"},
                                        "column": {"type": "integer"}
                                    }
                                }
                            },
                            "path": {
                                "type": "array",
                                "items": {"oneOf": [{"type": "string"}, {"type": "integer"}]}
                            },
                            "extensions": {"type": "object"}
                        },
                        "required": ["message"]
                    }
                },
                "extensions": {"type": "object"}
            }
        }"#,
    );
    schema["properties"]["data"]["properties"] = parse(data);
    schema
}

fn plain_facts() -> Analysis {
    Analysis {
        argument_descriptions: StringMap::new(),
        shaken_types: shaken_types("type Query { id: String }"),
        private_fields: PrivateFieldTree { paths: vec![] },
        stripped_source_text: String::new(),
        selection_schema: Some(response_schema(
            r#"{"id": {"oneOf": [{"type": "string"}, {"type": "null"}]}}"#,
        )),
    }
}

fn shaken_facts(sdl: &str) -> Analysis {
    Analysis {
        shaken_types: shaken_types(sdl),
        ..plain_facts()
    }
}

fn argument_facts(descriptions: &[(&str, &[&str])]) -> Analysis {
    let mut argument_descriptions = StringMap::new();
    for (name, texts) in descriptions {
        let texts = texts.iter().map(|text| text.to_string()).collect();
        argument_descriptions.insert(name.to_string(), texts);
    }
    Analysis {
        argument_descriptions,
        ..plain_facts()
    }
}

fn response_facts(data: &str, descriptions: &[(&str, &[&str])]) -> Analysis {
    Analysis {
        selection_schema: Some(response_schema(data)),
        ..argument_facts(descriptions)
    }
}

fn private_facts(path: &[&str], stripped: &str) -> Analysis {
    Analysis {
        private_fields: PrivateFieldTree {
            paths: vec![path.iter().map(|name| name.to_string()).collect()],
        },
        stripped_source_text: stripped.to_string(),
        ..plain_facts()
    }
}

fn new_tool(name: &str, description: &str, input_schema: Object) -> Tool {
    Tool {
        name: name.to_string(),
        description: Some(description.to_string()),
        input_schema,
        output_schema: None,
        annotations: None,
    }
}

fn raw(source_text: String) -> RawOperation {
    RawOperation {
        source_text,
        headers: None,
        variables: None,
        source_path: None,
    }
}

#[allow(clippy::too_many_arguments)]
fn from_raw(
    raw_operation: RawOperation,
    schema: &Schema,
    custom_scalar_map: Option<&CustomScalarMap>,
    mutation_mode: MutationMode,
    disable_type_description: bool,
    disable_schema_description: bool,
    enable_output_schema: bool,
    annotation_overrides: &HashMap<String, AnnotationOverrides>,
    description_overrides: &HashMap<String, String>,
) -> Result<Option<Operation>, OperationError> {
    from_raw_with(
        plain_facts(),
        raw_operation,
        schema,
        custom_scalar_map,
        mutation_mode,
        disable_type_description,
        disable_schema_description,
        enable_output_schema,
        annotation_overrides,
        description_overrides,
    )
}

#[allow(clippy::too_many_arguments)]
fn from_raw_with(
    analysis: Analysis,
    raw_operation: RawOperation,
    schema: &Schema,
    custom_scalar_map: Option<&CustomScalarMap>,
    mutation_mode: MutationMode,
    disable_type_description: bool,
    disable_schema_description: bool,
    enable_output_schema: bool,
    annotation_overrides: &HashMap<String, AnnotationOverrides>,
    description_overrides: &HashMap<String, String>,
) -> Result<Option<Operation>, OperationError> {
    let mut annotations = StringMap::new();
    for (name, overrides) in annotation_overrides {
        annotations.insert(name.clone(), overrides.clone());
    }
    let mut descriptions = StringMap::new();
    for (name, description) in description_overrides {
        descriptions.insert(name.clone(), description.clone());
    }
    Operation::from_raw(
        raw_operation,
        &graphql_schema(schema),
        custom_scalar_map,
        mutation_mode,
        ToolOptions {
            disable_type_description,
            disable_schema_description,
            enable_output_schema,
        },
        &annotations,
        &descriptions,
        analysis,
        LogLevels {
            warn: true,
            debug: false,
        },
    )
}

/// What is told of the types of an operation's variables.
fn warnings_for(source_text: &str, custom_scalar_map: Option<&CustomScalarMap>) -> Vec<Notice> {
    let log = LogLevels {
        warn: true,
        debug: false,
    };
    let found = operation_defs(source_text, false, None, log)
        .unwrap()
        .unwrap();
    schema_warnings(
        &found.operation,
        &graphql_schema(&SCHEMA),
        custom_scalar_map,
        None,
    )
    .iter()
    .map(|warning| warning.notice())
    .collect()
}

/// What is told of an operation that is skipped.
fn skip_notices(source_text: &str, source_path: Option<&str>) -> Vec<Notice> {
    let mut raw_operation = raw(source_text.to_string());
    raw_operation.source_path = source_path.map(str::to_string);
    let read = read_document(source_text, &raw_operation.source_path).unwrap();
    let log = LogLevels {
        warn: true,
        debug: true,
    };
    match load_step(&raw_operation, read.definitions, MutationMode::Never, log).unwrap() {
        Choice::Skip(notice) => notice.into_iter().collect(),
        Choice::Take(..) => panic!("the operation is not skipped"),
    }
}

fn assert_noticed(notices: &[Notice], text: &str) {
    assert!(
        notices
            .iter()
            .any(|notice| notice.level == NoticeLevel::Warn && notice.text.contains(text)),
        "expected {text:?} in {notices:?}"
    );
}

/// Shows a tool with all the fields that a client may see.
struct ShownTool<'a>(&'a Tool);

impl std::fmt::Debug for ShownTool<'_> {
    fn fmt(&self, f: &mut std::fmt::Formatter<'_>) -> std::fmt::Result {
        let nothing: Option<()> = None;
        f.debug_struct("Tool")
            .field("name", &self.0.name)
            .field("title", &nothing)
            .field("description", &self.0.description)
            .field("input_schema", &self.0.input_schema)
            .field("output_schema", &self.0.output_schema)
            .field("annotations", &self.0.annotations)
            .field("execution", &nothing)
            .field("icons", &nothing)
            .field("meta", &nothing)
            .finish()
    }
}

/// Shows an operation with all the fields of its tool.
struct ShownOperation<'a>(&'a Operation);

impl std::fmt::Debug for ShownOperation<'_> {
    fn fmt(&self, f: &mut std::fmt::Formatter<'_>) -> std::fmt::Result {
        f.debug_struct("Operation")
            .field("tool", &ShownTool(&self.0.tool))
            .field("inner", &self.0.inner)
            .field("operation_name", &self.0.operation_name)
            .field("stripped_source_text", &self.0.stripped_source_text)
            .field("private_fields", &self.0.private_fields)
            .finish()
    }
}

/// Compares a text with one that is indented as the code around it.
fn assert_snapshot(actual: &str, expected: &str) {
    let lines: Vec<&str> = expected.lines().collect();
    let indent = lines
        .iter()
        .filter(|line| !line.trim().is_empty())
        .map(|line| line.len() - line.trim_start().len())
        .min()
        .unwrap_or(0);
    let expected: Vec<&str> = lines
        .iter()
        .map(|line| line.get(indent..).unwrap_or("").trim_end())
        .collect();
    let actual: Vec<&str> = actual.lines().map(|line| line.trim_end()).collect();
    assert_eq!(
        actual.join("\n").trim_matches('\n'),
        expected.join("\n").trim_matches('\n')
    );
}

/// The JSON object with its members sorted by name.
fn sorted(object: &Object) -> Value {
    let mut value = Value::Object(object.clone());
    value.sort_all_objects();
    value
}

fn input_schema_for(source_text: &str) -> Value {
    input_schema_for_with_scalars(source_text, None)
}

fn input_schema_for_with_scalars(
    source_text: &str,
    custom_scalar_map: Option<&CustomScalarMap>,
) -> Value {
    input_schema_for_schema(source_text, &SCHEMA, custom_scalar_map)
}

fn input_schema_for_schema(
    source_text: &str,
    graphql_schema: &Schema,
    custom_scalar_map: Option<&CustomScalarMap>,
) -> Value {
    let operation = from_raw(
        raw(source_text.to_string()),
        graphql_schema,
        custom_scalar_map,
        MutationMode::Never,
        false,
        false,
        false,
        &HashMap::new(),
        &HashMap::new(),
    )
    .unwrap()
    .unwrap();
    sorted(&Tool::from(operation).input_schema)
}

/// Strict function-calling clients keep property schemas unchanged and mark
/// every property required, so omission is no longer available as a stand-in
/// for GraphQL null.
fn require_every_property(schema: &Value) -> Value {
    let mut strict = schema.clone();
    let required = strict
        .get("properties")
        .and_then(Value::as_object)
        .map(|properties| {
            properties
                .keys()
                .cloned()
                .map(Value::String)
                .collect::<Vec<_>>()
        })
        .unwrap_or_default();
    strict
        .as_object_mut()
        .expect("input schema is an object")
        .insert("required".to_string(), Value::Array(required));
    strict
}

fn assert_valid(schema: &Value, instance: &Value) {
    assert!(
        jsonschema::is_valid(schema, instance),
        "expected {instance} to be valid against {schema}"
    );
}

fn assert_invalid(schema: &Value, instance: &Value) {
    assert!(
        !jsonschema::is_valid(schema, instance),
        "expected {instance} to be invalid against {schema}"
    );
}

#[test]
fn nullable_input_schema_accepts_explicit_null_after_strict_transform() {
    // Omission from `required` alone does not say that null is valid: strict
    // clients add every property to `required`.
    let schema = input_schema_for(
        "query GetThings($statuses: [RealEnum!] = null, $createdAfter: String = null, $isActive: Boolean = null) { id }",
    );

    assert!(
        schema.get("required").is_none(),
        "nullable variables must remain omitted from required: {schema}"
    );

    let statuses = schema["properties"]["statuses"].clone();
    let created_after = schema["properties"]["createdAfter"].clone();
        let is_active = schema["properties"]["isActive"].clone();
    assert_ne!(
        statuses.get("type"),
        Some(&Value::String("array".into())),
        "nullable list must not be a bare array: {statuses}"
    );
    assert_ne!(
        created_after.get("type"),
        Some(&Value::String("string".into())),
        "nullable string must not be a bare string: {created_after}"
    );
    assert_ne!(
        is_active.get("type"),
        Some(&Value::String("boolean".into())),
        "nullable boolean must not be a bare boolean: {is_active}"
    );

    let explicit_null = parse(r#"{
        "statuses": null,
        "createdAfter": null,
            "isActive": null
    }"#);
    assert_valid(&schema, &explicit_null);
    assert_valid(&schema, &parse(r#"{}"#));

    let strict = require_every_property(&schema);
    assert_valid(&strict, &explicit_null);
    assert_invalid(&strict, &parse(r#"{}"#));
}

#[test]
fn input_nullability_matrix() {
    let schema = input_schema_for(
        "query Matrix(\
            $a: String, \
            $b: String!, \
            $c: [String], \
            $d: [String!], \
            $e: [String]!, \
            $f: [String!]!, \
            $g: [[String]], \
            $h: RealEnum, \
            $i: RealInputObject\
        ) { id }",
    );

    let custom_scalar_map =
        scalar_map("{ \"RealCustomScalar\": { \"type\": \"string\" }}").unwrap();
    let with_scalar = input_schema_for_with_scalars(
        "query Custom($j: RealCustomScalar) { id }",
        Some(&custom_scalar_map),
    );

    assert!(
        schema
            .get("required")
            .unwrap()
            .as_array()
            .unwrap()
            .contains(&Value::String("b".into()))
    );
    assert!(
        schema
            .get("required")
            .unwrap()
            .as_array()
            .unwrap()
            .contains(&Value::String("e".into()))
    );
    assert!(
        schema
            .get("required")
            .unwrap()
            .as_array()
            .unwrap()
            .contains(&Value::String("f".into()))
    );
    for optional in ["a", "c", "d", "g", "h", "i"] {
        assert!(
            !schema
                .get("required")
                .unwrap()
                .as_array()
                .unwrap()
                .contains(&Value::String(optional.into())),
            "{optional} should stay optional"
        );
    }

    let required = parse(r#"{"b": "x", "e": [], "f": ["x"]}"#);
    assert_valid(&schema, &required);
    assert_valid(
        &schema,
        &parse(r#"{"a": null, "b": "x", "e": [], "f": ["x"]}"#),
    );
    assert_invalid(
        &schema,
        &parse(r#"{"a": "x", "b": null, "e": [], "f": ["x"]}"#),
    );

    assert_valid(
        &schema,
        &parse(r#"{"b": "x", "c": null, "e": [], "f": ["x"]}"#),
    );
    assert_valid(
        &schema,
        &parse(r#"{"b": "x", "c": [null, "x"], "e": [], "f": ["x"]}"#),
    );
    assert_valid(
        &schema,
        &parse(r#"{"b": "x", "d": null, "e": [], "f": ["x"]}"#),
    );
    assert_invalid(
        &schema,
        &parse(r#"{"b": "x", "d": [null], "e": [], "f": ["x"]}"#),
    );
    assert_invalid(
        &schema,
        &parse(r#"{"b": "x", "e": null, "f": ["x"]}"#),
    );
    assert_valid(
        &schema,
        &parse(r#"{"b": "x", "e": [null, "x"], "f": ["x"]}"#),
    );
    assert_invalid(&schema, &parse(r#"{"b": "x", "e": [], "f": null}"#));
    assert_invalid(
        &schema,
        &parse(r#"{"b": "x", "e": [], "f": [null]}"#),
    );

    assert_valid(
        &schema,
        &parse(r#"{"b": "x", "e": [], "f": ["x"], "g": null}"#),
    );
    assert_valid(
        &schema,
        &parse(r#"{"b": "x", "e": [], "f": ["x"], "g": [null]}"#),
    );
    assert_valid(
        &schema,
        &parse(r#"{"b": "x", "e": [], "f": ["x"], "g": [[null, "x"]]}"#),
    );

    assert_valid(
        &schema,
        &parse(r#"{"b": "x", "e": [], "f": ["x"], "h": null}"#),
    );
    assert_valid(
        &schema,
        &parse(r#"{"b": "x", "e": [], "f": ["x"], "h": "ENUM_VALUE_1"}"#),
    );
    assert_valid(
        &schema,
        &parse(r#"{"b": "x", "e": [], "f": ["x"], "i": null}"#),
    );
    assert_valid(
        &schema,
        &parse(r#"{"b": "x", "e": [], "f": ["x"], "i": {"required": "yes"}}"#),
    );

    assert_valid(&with_scalar, &parse(r#"{"j": null}"#));
    assert_valid(&with_scalar, &parse(r#"{"j": "custom"}"#));

    let strict = require_every_property(&schema);
    assert_valid(
        &strict,
        &parse(r#"{
            "a": null,
            "b": "x",
            "c": null,
            "d": ["x"],
            "e": [],
            "f": ["x"],
            "g": null,
            "h": null,
            "i": null
        }"#),
    );
}

#[test]
fn nullable_variable_defaults_do_not_change_schema_nullability() {
    // GraphQL can distinguish omitted variables from explicit null at
    // execution time. The schema only says that null is a legal *value* for a
    // nullable variable.
    let no_default = input_schema_for("query Q($a: String) { id }");
    let null_default = input_schema_for("query Q($b: String = null) { id }");
    let string_default = input_schema_for(r#"query Q($c: String = "default") { id }"#);

    assert_valid(&no_default, &parse(r#"{"a": null}"#));
    assert_valid(&null_default, &parse(r#"{"b": null}"#));
    assert_valid(&string_default, &parse(r#"{"c": null}"#));
    assert_valid(&no_default, &parse(r#"{}"#));
    assert_valid(&null_default, &parse(r#"{}"#));
    assert_valid(&string_default, &parse(r#"{}"#));
}

#[test]
fn open_schemas_still_accept_explicit_null() {
    // Empty / unmapped schemas already accept any value, including null.
    // Wrapping them in oneOf with a null branch would make null match
    // both sides and fail JSON Schema oneOf.
    let unknown = input_schema_for("query Q($a: FakeType) { id }");
    let unmapped = input_schema_for("query Q($b: RealCustomScalar) { id }");

    assert_valid(&unknown, &parse(r#"{"a": null}"#));
    assert_valid(&unmapped, &parse(r#"{"b": null}"#));
    assert_valid(
        &require_every_property(&unknown),
        &parse(r#"{"a": null}"#),
    );
    assert_valid(
        &require_every_property(&unmapped),
        &parse(r#"{"b": null}"#),
    );
}

/// GraphQL schema used to check that mapped custom-scalar JSON Schema
/// cannot override GraphQL nullability, including inside input objects.
fn mapped_foo_graphql_schema() -> Schema {
    Schema::parse(
        r#"
                type Query { id: String }
                """Foo is a mapped custom scalar"""
                scalar Foo
                input FooInput {
                    optional: Foo
                    required: Foo!
                }
                input RecursiveFoo {
                    child: RecursiveFoo
                    value: Foo
                    requiredValue: Foo!
                }
            "#,
        "mapped-foo.graphql",
    )
    .expect("mapped Foo schema should parse")
    .validate()
    .expect("mapped Foo schema should be valid")
    .into_inner()
}

fn mapped_foo_input_schema(source_text: &str, scalar_schema_json: &str) -> Value {
    let custom_scalar_map = scalar_map(scalar_schema_json).unwrap();
    input_schema_for_schema(
        source_text,
        &mapped_foo_graphql_schema(),
        Some(&custom_scalar_map),
    )
}

/// GraphQL nullability is authoritative: `Foo` accepts null, `Foo!` rejects
/// it. The operator-supplied custom scalar schema only constrains non-null
/// values and must not make a nullable wrapper reject null.
fn assert_mapped_scalar_nullability(
    scalar_schema_json: &str,
    valid_non_null: &Value,
    also_accepted_non_null: &[Value],
    rejected_non_null: &[Value],
) {
    let nullable = mapped_foo_input_schema("query Q($value: Foo) { id }", scalar_schema_json);
    let non_null = mapped_foo_input_schema("query Q($value: Foo!) { id }", scalar_schema_json);

    assert_valid(&nullable, &parse(r#"{"value": null}"#));
    assert_valid(&nullable, &fill(r#"{"value": "$"}"#, valid_non_null));
    assert_valid(
        &require_every_property(&nullable),
        &parse(r#"{"value": null}"#),
    );

    assert_invalid(&non_null, &parse(r#"{"value": null}"#));
    assert_valid(&non_null, &fill(r#"{"value": "$"}"#, valid_non_null));

    for extra in also_accepted_non_null {
        assert_valid(&nullable, &fill(r#"{"value": "$"}"#, extra));
        assert_valid(&non_null, &fill(r#"{"value": "$"}"#, extra));
    }
    for rejected in rejected_non_null {
        assert_invalid(&nullable, &fill(r#"{"value": "$"}"#, rejected));
        assert_invalid(&non_null, &fill(r#"{"value": "$"}"#, rejected));
    }

    let nested =
        mapped_foo_input_schema("query Q($input: FooInput) { id }", scalar_schema_json);
    assert_valid(
        &nested,
        &fill(r#"{"input": {"optional": null, "required": "$"}}"#, valid_non_null),
    );
    assert_valid(
        &nested,
        &fill(r#"{"input": {"required": "$"}}"#, valid_non_null),
    );
    assert_invalid(
        &nested,
        &fill(r#"{"input": {"optional": "$", "required": null}}"#, valid_non_null),
    );
    assert_valid(&nested, &parse(r#"{"input": null}"#));
    assert_valid(
        &require_every_property(&nested),
        &fill(r#"{"input": {"optional": null, "required": "$"}}"#, valid_non_null),
    );

    let nested_required =
        mapped_foo_input_schema("query Q($input: FooInput!) { id }", scalar_schema_json);
    assert_invalid(&nested_required, &parse(r#"{"input": null}"#));
    assert_valid(
        &nested_required,
        &fill(r#"{"input": {"optional": null, "required": "$"}}"#, valid_non_null),
    );

    let recursive =
        mapped_foo_input_schema("query Q($input: RecursiveFoo) { id }", scalar_schema_json);
    assert_valid(
        &recursive,
        &fill(r#"{
            "input": {
                "value": null,
                "requiredValue": "$",
                "child": {
                    "value": null,
                    "requiredValue": "$"
                }
            }
        }"#, valid_non_null),
    );
    assert_invalid(
        &recursive,
        &fill(r#"{
            "input": {
                "value": "$",
                "requiredValue": null
            }
        }"#, valid_non_null),
    );
}

#[test]
fn mapped_scalar_type_array_accepting_null() {
    // A. Operator schema already admits null via a type array.
    assert_mapped_scalar_nullability(
        r#"{ "Foo": { "type": ["string", "null"] } }"#,
        &parse(r#""hello""#),
        &[],
        &[parse(r#"1"#), parse(r#"true"#)],
    );
}

#[test]
fn mapped_scalar_any_of_accepting_null() {
    // B. Operator schema already admits null via anyOf.
    assert_mapped_scalar_nullability(
        r#"{
                "Foo": {
                    "anyOf": [
                        {"type": "string"},
                        {"type": "null"}
                    ]
                }
            }"#,
        &parse(r#""hello""#),
        &[],
        &[parse(r#"1"#), parse(r#"true"#)],
    );
}

#[test]
fn mapped_scalar_open_schema() {
    // C. Open schema remains permissive for every non-null value.
    assert_mapped_scalar_nullability(
        r#"{ "Foo": {} }"#,
        &parse(r#""hello""#),
        &[
            parse(r#"1"#),
            parse(r#"true"#),
            parse(r#"{"any": "object"}"#),
        ],
        &[],
    );
}

#[test]
fn mapped_scalar_non_null_string_schema() {
    // D. Ordinary non-null operator schema.
    assert_mapped_scalar_nullability(
        r#"{ "Foo": { "type": "string" } }"#,
        &parse(r#""hello""#),
        &[],
        &[parse(r#"1"#), parse(r#"true"#)],
    );
}

#[test]
fn nullable_named_type() {
    let operation = from_raw(
        RawOperation {
            source_text: "query QueryName($id: ID) { id }".to_string(),
            headers: None,
            variables: None,
            source_path: None,
        },
        &SCHEMA,
        None,
        MutationMode::Never,
        false,
        false,
        true,
        &HashMap::new(),
        &HashMap::new(),
    )
    .unwrap()
    .unwrap();
    let tool = Tool::from(operation);

    assert_snapshot(&format!("{:#?}", ShownTool(&tool)), r#"
        Tool {
            name: "QueryName",
            title: None,
            description: Some(
                "The returned value is optional and has type `String`",
            ),
            input_schema: {
                "type": String("object"),
                "properties": Object {
                    "id": Object {
                        "oneOf": Array [
                            Object {
                                "type": String("string"),
                            },
                            Object {
                                "type": String("null"),
                            },
                        ],
                    },
                },
            },
            output_schema: Some(
                {
                    "type": String("object"),
                    "properties": Object {
                        "data": Object {
                            "type": String("object"),
                            "properties": Object {
                                "id": Object {
                                    "oneOf": Array [
                                        Object {
                                            "type": String("string"),
                                        },
                                        Object {
                                            "type": String("null"),
                                        },
                                    ],
                                },
                            },
                        },
                        "errors": Object {
                            "type": String("array"),
                            "items": Object {
                                "type": String("object"),
                                "properties": Object {
                                    "message": Object {
                                        "type": String("string"),
                                    },
                                    "locations": Object {
                                        "type": String("array"),
                                        "items": Object {
                                            "type": String("object"),
                                            "properties": Object {
                                                "line": Object {
                                                    "type": String("integer"),
                                                },
                                                "column": Object {
                                                    "type": String("integer"),
                                                },
                                            },
                                        },
                                    },
                                    "path": Object {
                                        "type": String("array"),
                                        "items": Object {
                                            "oneOf": Array [
                                                Object {
                                                    "type": String("string"),
                                                },
                                                Object {
                                                    "type": String("integer"),
                                                },
                                            ],
                                        },
                                    },
                                    "extensions": Object {
                                        "type": String("object"),
                                    },
                                },
                                "required": Array [
                                    String("message"),
                                ],
                            },
                        },
                        "extensions": Object {
                            "type": String("object"),
                        },
                    },
                },
            ),
            annotations: Some(
                ToolAnnotations {
                    title: None,
                    read_only_hint: Some(
                        true,
                    ),
                    destructive_hint: Some(
                        false,
                    ),
                    idempotent_hint: Some(
                        true,
                    ),
                    open_world_hint: Some(
                        true,
                    ),
                },
            ),
            execution: None,
            icons: None,
            meta: None,
        }
        "#);

    let json = sorted(&tool.input_schema);
    assert_snapshot(&serde_json::to_string_pretty(&json).unwrap(), r#"
        {
          "properties": {
            "id": {
              "oneOf": [
                {
                  "type": "string"
                },
                {
                  "type": "null"
                }
              ]
            }
          },
          "type": "object"
        }
        "#);
}

#[test]
fn non_nullable_named_type() {
    let operation = from_raw(
        RawOperation {
            source_text: "query QueryName($id: ID!) { id }".to_string(),
            headers: None,
            variables: None,
            source_path: None,
        },
        &SCHEMA,
        None,
        MutationMode::Never,
        false,
        false,
        true,
        &HashMap::new(),
        &HashMap::new(),
    )
    .unwrap()
    .unwrap();
    let tool = Tool::from(operation);

    assert_snapshot(&format!("{:#?}", ShownTool(&tool)), r#"
        Tool {
            name: "QueryName",
            title: None,
            description: Some(
                "The returned value is optional and has type `String`",
            ),
            input_schema: {
                "type": String("object"),
                "properties": Object {
                    "id": Object {
                        "type": String("string"),
                    },
                },
                "required": Array [
                    String("id"),
                ],
            },
            output_schema: Some(
                {
                    "type": String("object"),
                    "properties": Object {
                        "data": Object {
                            "type": String("object"),
                            "properties": Object {
                                "id": Object {
                                    "oneOf": Array [
                                        Object {
                                            "type": String("string"),
                                        },
                                        Object {
                                            "type": String("null"),
                                        },
                                    ],
                                },
                            },
                        },
                        "errors": Object {
                            "type": String("array"),
                            "items": Object {
                                "type": String("object"),
                                "properties": Object {
                                    "message": Object {
                                        "type": String("string"),
                                    },
                                    "locations": Object {
                                        "type": String("array"),
                                        "items": Object {
                                            "type": String("object"),
                                            "properties": Object {
                                                "line": Object {
                                                    "type": String("integer"),
                                                },
                                                "column": Object {
                                                    "type": String("integer"),
                                                },
                                            },
                                        },
                                    },
                                    "path": Object {
                                        "type": String("array"),
                                        "items": Object {
                                            "oneOf": Array [
                                                Object {
                                                    "type": String("string"),
                                                },
                                                Object {
                                                    "type": String("integer"),
                                                },
                                            ],
                                        },
                                    },
                                    "extensions": Object {
                                        "type": String("object"),
                                    },
                                },
                                "required": Array [
                                    String("message"),
                                ],
                            },
                        },
                        "extensions": Object {
                            "type": String("object"),
                        },
                    },
                },
            ),
            annotations: Some(
                ToolAnnotations {
                    title: None,
                    read_only_hint: Some(
                        true,
                    ),
                    destructive_hint: Some(
                        false,
                    ),
                    idempotent_hint: Some(
                        true,
                    ),
                    open_world_hint: Some(
                        true,
                    ),
                },
            ),
            execution: None,
            icons: None,
            meta: None,
        }
        "#);
    assert_snapshot(&serde_json::to_string_pretty(&tool.input_schema).unwrap(), r###"
        {
          "type": "object",
          "properties": {
            "id": {
              "type": "string"
            }
          },
          "required": [
            "id"
          ]
        }
        "###);
}

#[test]
fn non_nullable_list_of_nullable_named_type() {
    let operation = from_raw(
        RawOperation {
            source_text: "query QueryName($id: [ID]!) { id }".to_string(),
            headers: None,
            variables: None,
            source_path: None,
        },
        &SCHEMA,
        None,
        MutationMode::Never,
        false,
        false,
        true,
        &HashMap::new(),
        &HashMap::new(),
    )
    .unwrap()
    .unwrap();
    let tool = Tool::from(operation);

    assert_snapshot(&format!("{:#?}", ShownTool(&tool)), r#"
        Tool {
            name: "QueryName",
            title: None,
            description: Some(
                "The returned value is optional and has type `String`",
            ),
            input_schema: {
                "type": String("object"),
                "properties": Object {
                    "id": Object {
                        "type": String("array"),
                        "items": Object {
                            "oneOf": Array [
                                Object {
                                    "type": String("string"),
                                },
                                Object {
                                    "type": String("null"),
                                },
                            ],
                        },
                    },
                },
                "required": Array [
                    String("id"),
                ],
            },
            output_schema: Some(
                {
                    "type": String("object"),
                    "properties": Object {
                        "data": Object {
                            "type": String("object"),
                            "properties": Object {
                                "id": Object {
                                    "oneOf": Array [
                                        Object {
                                            "type": String("string"),
                                        },
                                        Object {
                                            "type": String("null"),
                                        },
                                    ],
                                },
                            },
                        },
                        "errors": Object {
                            "type": String("array"),
                            "items": Object {
                                "type": String("object"),
                                "properties": Object {
                                    "message": Object {
                                        "type": String("string"),
                                    },
                                    "locations": Object {
                                        "type": String("array"),
                                        "items": Object {
                                            "type": String("object"),
                                            "properties": Object {
                                                "line": Object {
                                                    "type": String("integer"),
                                                },
                                                "column": Object {
                                                    "type": String("integer"),
                                                },
                                            },
                                        },
                                    },
                                    "path": Object {
                                        "type": String("array"),
                                        "items": Object {
                                            "oneOf": Array [
                                                Object {
                                                    "type": String("string"),
                                                },
                                                Object {
                                                    "type": String("integer"),
                                                },
                                            ],
                                        },
                                    },
                                    "extensions": Object {
                                        "type": String("object"),
                                    },
                                },
                                "required": Array [
                                    String("message"),
                                ],
                            },
                        },
                        "extensions": Object {
                            "type": String("object"),
                        },
                    },
                },
            ),
            annotations: Some(
                ToolAnnotations {
                    title: None,
                    read_only_hint: Some(
                        true,
                    ),
                    destructive_hint: Some(
                        false,
                    ),
                    idempotent_hint: Some(
                        true,
                    ),
                    open_world_hint: Some(
                        true,
                    ),
                },
            ),
            execution: None,
            icons: None,
            meta: None,
        }
        "#);
    assert_snapshot(&serde_json::to_string_pretty(&tool.input_schema).unwrap(), r###"
        {
          "type": "object",
          "properties": {
            "id": {
              "type": "array",
              "items": {
                "oneOf": [
                  {
                    "type": "string"
                  },
                  {
                    "type": "null"
                  }
                ]
              }
            }
          },
          "required": [
            "id"
          ]
        }
        "###);
}

#[test]
fn non_nullable_list_of_non_nullable_named_type() {
    let operation = from_raw(
        RawOperation {
            source_text: "query QueryName($id: [ID!]!) { id }".to_string(),
            headers: None,
            variables: None,
            source_path: None,
        },
        &SCHEMA,
        None,
        MutationMode::Never,
        false,
        false,
        true,
        &HashMap::new(),
        &HashMap::new(),
    )
    .unwrap()
    .unwrap();
    let tool = Tool::from(operation);

    assert_snapshot(&format!("{:#?}", ShownTool(&tool)), r#"
        Tool {
            name: "QueryName",
            title: None,
            description: Some(
                "The returned value is optional and has type `String`",
            ),
            input_schema: {
                "type": String("object"),
                "properties": Object {
                    "id": Object {
                        "type": String("array"),
                        "items": Object {
                            "type": String("string"),
                        },
                    },
                },
                "required": Array [
                    String("id"),
                ],
            },
            output_schema: Some(
                {
                    "type": String("object"),
                    "properties": Object {
                        "data": Object {
                            "type": String("object"),
                            "properties": Object {
                                "id": Object {
                                    "oneOf": Array [
                                        Object {
                                            "type": String("string"),
                                        },
                                        Object {
                                            "type": String("null"),
                                        },
                                    ],
                                },
                            },
                        },
                        "errors": Object {
                            "type": String("array"),
                            "items": Object {
                                "type": String("object"),
                                "properties": Object {
                                    "message": Object {
                                        "type": String("string"),
                                    },
                                    "locations": Object {
                                        "type": String("array"),
                                        "items": Object {
                                            "type": String("object"),
                                            "properties": Object {
                                                "line": Object {
                                                    "type": String("integer"),
                                                },
                                                "column": Object {
                                                    "type": String("integer"),
                                                },
                                            },
                                        },
                                    },
                                    "path": Object {
                                        "type": String("array"),
                                        "items": Object {
                                            "oneOf": Array [
                                                Object {
                                                    "type": String("string"),
                                                },
                                                Object {
                                                    "type": String("integer"),
                                                },
                                            ],
                                        },
                                    },
                                    "extensions": Object {
                                        "type": String("object"),
                                    },
                                },
                                "required": Array [
                                    String("message"),
                                ],
                            },
                        },
                        "extensions": Object {
                            "type": String("object"),
                        },
                    },
                },
            ),
            annotations: Some(
                ToolAnnotations {
                    title: None,
                    read_only_hint: Some(
                        true,
                    ),
                    destructive_hint: Some(
                        false,
                    ),
                    idempotent_hint: Some(
                        true,
                    ),
                    open_world_hint: Some(
                        true,
                    ),
                },
            ),
            execution: None,
            icons: None,
            meta: None,
        }
        "#);
    assert_snapshot(&serde_json::to_string_pretty(&tool.input_schema).unwrap(), r###"
        {
          "type": "object",
          "properties": {
            "id": {
              "type": "array",
              "items": {
                "type": "string"
              }
            }
          },
          "required": [
            "id"
          ]
        }
        "###);
}

#[test]
fn nullable_list_of_nullable_named_type() {
    let operation = from_raw(
        RawOperation {
            source_text: "query QueryName($id: [ID]) { id }".to_string(),
            headers: None,
            variables: None,
            source_path: None,
        },
        &SCHEMA,
        None,
        MutationMode::Never,
        false,
        false,
        true,
        &HashMap::new(),
        &HashMap::new(),
    )
    .unwrap()
    .unwrap();
    let tool = Tool::from(operation);

    assert_snapshot(&format!("{:#?}", ShownTool(&tool)), r#"
        Tool {
            name: "QueryName",
            title: None,
            description: Some(
                "The returned value is optional and has type `String`",
            ),
            input_schema: {
                "type": String("object"),
                "properties": Object {
                    "id": Object {
                        "oneOf": Array [
                            Object {
                                "type": String("array"),
                                "items": Object {
                                    "oneOf": Array [
                                        Object {
                                            "type": String("string"),
                                        },
                                        Object {
                                            "type": String("null"),
                                        },
                                    ],
                                },
                            },
                            Object {
                                "type": String("null"),
                            },
                        ],
                    },
                },
            },
            output_schema: Some(
                {
                    "type": String("object"),
                    "properties": Object {
                        "data": Object {
                            "type": String("object"),
                            "properties": Object {
                                "id": Object {
                                    "oneOf": Array [
                                        Object {
                                            "type": String("string"),
                                        },
                                        Object {
                                            "type": String("null"),
                                        },
                                    ],
                                },
                            },
                        },
                        "errors": Object {
                            "type": String("array"),
                            "items": Object {
                                "type": String("object"),
                                "properties": Object {
                                    "message": Object {
                                        "type": String("string"),
                                    },
                                    "locations": Object {
                                        "type": String("array"),
                                        "items": Object {
                                            "type": String("object"),
                                            "properties": Object {
                                                "line": Object {
                                                    "type": String("integer"),
                                                },
                                                "column": Object {
                                                    "type": String("integer"),
                                                },
                                            },
                                        },
                                    },
                                    "path": Object {
                                        "type": String("array"),
                                        "items": Object {
                                            "oneOf": Array [
                                                Object {
                                                    "type": String("string"),
                                                },
                                                Object {
                                                    "type": String("integer"),
                                                },
                                            ],
                                        },
                                    },
                                    "extensions": Object {
                                        "type": String("object"),
                                    },
                                },
                                "required": Array [
                                    String("message"),
                                ],
                            },
                        },
                        "extensions": Object {
                            "type": String("object"),
                        },
                    },
                },
            ),
            annotations: Some(
                ToolAnnotations {
                    title: None,
                    read_only_hint: Some(
                        true,
                    ),
                    destructive_hint: Some(
                        false,
                    ),
                    idempotent_hint: Some(
                        true,
                    ),
                    open_world_hint: Some(
                        true,
                    ),
                },
            ),
            execution: None,
            icons: None,
            meta: None,
        }
        "#);
    assert_snapshot(&serde_json::to_string_pretty(&tool.input_schema).unwrap(), r#"
        {
          "type": "object",
          "properties": {
            "id": {
              "oneOf": [
                {
                  "type": "array",
                  "items": {
                    "oneOf": [
                      {
                        "type": "string"
                      },
                      {
                        "type": "null"
                      }
                    ]
                  }
                },
                {
                  "type": "null"
                }
              ]
            }
          }
        }
        "#);
}

#[test]
fn nullable_list_of_non_nullable_named_type() {
    let operation = from_raw(
        RawOperation {
            source_text: "query QueryName($id: [ID!]) { id }".to_string(),
            headers: None,
            variables: None,
            source_path: None,
        },
        &SCHEMA,
        None,
        MutationMode::Never,
        false,
        false,
        true,
        &HashMap::new(),
        &HashMap::new(),
    )
    .unwrap()
    .unwrap();
    let tool = Tool::from(operation);

    assert_snapshot(&format!("{:#?}", ShownTool(&tool)), r#"
        Tool {
            name: "QueryName",
            title: None,
            description: Some(
                "The returned value is optional and has type `String`",
            ),
            input_schema: {
                "type": String("object"),
                "properties": Object {
                    "id": Object {
                        "oneOf": Array [
                            Object {
                                "type": String("array"),
                                "items": Object {
                                    "type": String("string"),
                                },
                            },
                            Object {
                                "type": String("null"),
                            },
                        ],
                    },
                },
            },
            output_schema: Some(
                {
                    "type": String("object"),
                    "properties": Object {
                        "data": Object {
                            "type": String("object"),
                            "properties": Object {
                                "id": Object {
                                    "oneOf": Array [
                                        Object {
                                            "type": String("string"),
                                        },
                                        Object {
                                            "type": String("null"),
                                        },
                                    ],
                                },
                            },
                        },
                        "errors": Object {
                            "type": String("array"),
                            "items": Object {
                                "type": String("object"),
                                "properties": Object {
                                    "message": Object {
                                        "type": String("string"),
                                    },
                                    "locations": Object {
                                        "type": String("array"),
                                        "items": Object {
                                            "type": String("object"),
                                            "properties": Object {
                                                "line": Object {
                                                    "type": String("integer"),
                                                },
                                                "column": Object {
                                                    "type": String("integer"),
                                                },
                                            },
                                        },
                                    },
                                    "path": Object {
                                        "type": String("array"),
                                        "items": Object {
                                            "oneOf": Array [
                                                Object {
                                                    "type": String("string"),
                                                },
                                                Object {
                                                    "type": String("integer"),
                                                },
                                            ],
                                        },
                                    },
                                    "extensions": Object {
                                        "type": String("object"),
                                    },
                                },
                                "required": Array [
                                    String("message"),
                                ],
                            },
                        },
                        "extensions": Object {
                            "type": String("object"),
                        },
                    },
                },
            ),
            annotations: Some(
                ToolAnnotations {
                    title: None,
                    read_only_hint: Some(
                        true,
                    ),
                    destructive_hint: Some(
                        false,
                    ),
                    idempotent_hint: Some(
                        true,
                    ),
                    open_world_hint: Some(
                        true,
                    ),
                },
            ),
            execution: None,
            icons: None,
            meta: None,
        }
        "#);
    assert_snapshot(&serde_json::to_string_pretty(&tool.input_schema).unwrap(), r#"
        {
          "type": "object",
          "properties": {
            "id": {
              "oneOf": [
                {
                  "type": "array",
                  "items": {
                    "type": "string"
                  }
                },
                {
                  "type": "null"
                }
              ]
            }
          }
        }
        "#);
}

#[test]
fn nullable_list_of_nullable_lists_of_nullable_named_types() {
    let operation = from_raw(
        RawOperation {
            source_text: "query QueryName($id: [[ID]]) { id }".to_string(),
            headers: None,
            variables: None,
            source_path: None,
        },
        &SCHEMA,
        None,
        MutationMode::Never,
        false,
        false,
        true,
        &HashMap::new(),
        &HashMap::new(),
    )
    .unwrap()
    .unwrap();
    let tool = Tool::from(operation);

    assert_snapshot(&format!("{:#?}", ShownTool(&tool)), r#"
        Tool {
            name: "QueryName",
            title: None,
            description: Some(
                "The returned value is optional and has type `String`",
            ),
            input_schema: {
                "type": String("object"),
                "properties": Object {
                    "id": Object {
                        "oneOf": Array [
                            Object {
                                "type": String("array"),
                                "items": Object {
                                    "oneOf": Array [
                                        Object {
                                            "type": String("array"),
                                            "items": Object {
                                                "oneOf": Array [
                                                    Object {
                                                        "type": String("string"),
                                                    },
                                                    Object {
                                                        "type": String("null"),
                                                    },
                                                ],
                                            },
                                        },
                                        Object {
                                            "type": String("null"),
                                        },
                                    ],
                                },
                            },
                            Object {
                                "type": String("null"),
                            },
                        ],
                    },
                },
            },
            output_schema: Some(
                {
                    "type": String("object"),
                    "properties": Object {
                        "data": Object {
                            "type": String("object"),
                            "properties": Object {
                                "id": Object {
                                    "oneOf": Array [
                                        Object {
                                            "type": String("string"),
                                        },
                                        Object {
                                            "type": String("null"),
                                        },
                                    ],
                                },
                            },
                        },
                        "errors": Object {
                            "type": String("array"),
                            "items": Object {
                                "type": String("object"),
                                "properties": Object {
                                    "message": Object {
                                        "type": String("string"),
                                    },
                                    "locations": Object {
                                        "type": String("array"),
                                        "items": Object {
                                            "type": String("object"),
                                            "properties": Object {
                                                "line": Object {
                                                    "type": String("integer"),
                                                },
                                                "column": Object {
                                                    "type": String("integer"),
                                                },
                                            },
                                        },
                                    },
                                    "path": Object {
                                        "type": String("array"),
                                        "items": Object {
                                            "oneOf": Array [
                                                Object {
                                                    "type": String("string"),
                                                },
                                                Object {
                                                    "type": String("integer"),
                                                },
                                            ],
                                        },
                                    },
                                    "extensions": Object {
                                        "type": String("object"),
                                    },
                                },
                                "required": Array [
                                    String("message"),
                                ],
                            },
                        },
                        "extensions": Object {
                            "type": String("object"),
                        },
                    },
                },
            ),
            annotations: Some(
                ToolAnnotations {
                    title: None,
                    read_only_hint: Some(
                        true,
                    ),
                    destructive_hint: Some(
                        false,
                    ),
                    idempotent_hint: Some(
                        true,
                    ),
                    open_world_hint: Some(
                        true,
                    ),
                },
            ),
            execution: None,
            icons: None,
            meta: None,
        }
        "#);
    assert_snapshot(&serde_json::to_string_pretty(&tool.input_schema).unwrap(), r#"
        {
          "type": "object",
          "properties": {
            "id": {
              "oneOf": [
                {
                  "type": "array",
                  "items": {
                    "oneOf": [
                      {
                        "type": "array",
                        "items": {
                          "oneOf": [
                            {
                              "type": "string"
                            },
                            {
                              "type": "null"
                            }
                          ]
                        }
                      },
                      {
                        "type": "null"
                      }
                    ]
                  }
                },
                {
                  "type": "null"
                }
              ]
            }
          }
        }
        "#);
}

#[test]
fn nullable_input_object() {
    let operation = from_raw(
        RawOperation {
            source_text: "query QueryName($id: RealInputObject) { id }".to_string(),
            headers: None,
            variables: None,
            source_path: None,
        },
        &SCHEMA,
        None,
        MutationMode::Never,
        false,
        false,
        true,
        &HashMap::new(),
        &HashMap::new(),
    )
    .unwrap()
    .unwrap();
    let tool = Tool::from(operation);

    assert_snapshot(&format!("{:#?}", ShownTool(&tool)), r##"
        Tool {
            name: "QueryName",
            title: None,
            description: Some(
                "The returned value is optional and has type `String`",
            ),
            input_schema: {
                "type": String("object"),
                "properties": Object {
                    "id": Object {
                        "oneOf": Array [
                            Object {
                                "$ref": String("#/definitions/RealInputObject"),
                            },
                            Object {
                                "type": String("null"),
                            },
                        ],
                    },
                },
                "definitions": Object {
                    "RealInputObject": Object {
                        "type": String("object"),
                        "properties": Object {
                            "optional": Object {
                                "oneOf": Array [
                                    Object {
                                        "description": String("optional is a input field that is optional"),
                                        "type": String("string"),
                                    },
                                    Object {
                                        "type": String("null"),
                                    },
                                ],
                            },
                            "required": Object {
                                "description": String("required is a input field that is required"),
                                "type": String("string"),
                            },
                        },
                        "required": Array [
                            String("required"),
                        ],
                    },
                },
            },
            output_schema: Some(
                {
                    "type": String("object"),
                    "properties": Object {
                        "data": Object {
                            "type": String("object"),
                            "properties": Object {
                                "id": Object {
                                    "oneOf": Array [
                                        Object {
                                            "type": String("string"),
                                        },
                                        Object {
                                            "type": String("null"),
                                        },
                                    ],
                                },
                            },
                        },
                        "errors": Object {
                            "type": String("array"),
                            "items": Object {
                                "type": String("object"),
                                "properties": Object {
                                    "message": Object {
                                        "type": String("string"),
                                    },
                                    "locations": Object {
                                        "type": String("array"),
                                        "items": Object {
                                            "type": String("object"),
                                            "properties": Object {
                                                "line": Object {
                                                    "type": String("integer"),
                                                },
                                                "column": Object {
                                                    "type": String("integer"),
                                                },
                                            },
                                        },
                                    },
                                    "path": Object {
                                        "type": String("array"),
                                        "items": Object {
                                            "oneOf": Array [
                                                Object {
                                                    "type": String("string"),
                                                },
                                                Object {
                                                    "type": String("integer"),
                                                },
                                            ],
                                        },
                                    },
                                    "extensions": Object {
                                        "type": String("object"),
                                    },
                                },
                                "required": Array [
                                    String("message"),
                                ],
                            },
                        },
                        "extensions": Object {
                            "type": String("object"),
                        },
                    },
                },
            ),
            annotations: Some(
                ToolAnnotations {
                    title: None,
                    read_only_hint: Some(
                        true,
                    ),
                    destructive_hint: Some(
                        false,
                    ),
                    idempotent_hint: Some(
                        true,
                    ),
                    open_world_hint: Some(
                        true,
                    ),
                },
            ),
            execution: None,
            icons: None,
            meta: None,
        }
        "##);
}

#[test]
fn non_nullable_enum() {
    let operation = from_raw(
        RawOperation {
            source_text: "query QueryName($id: RealEnum!) { id }".to_string(),
            headers: None,
            variables: None,
            source_path: None,
        },
        &SCHEMA,
        None,
        MutationMode::Never,
        false,
        false,
        true,
        &HashMap::new(),
        &HashMap::new(),
    )
    .unwrap()
    .unwrap();
    let tool = Tool::from(operation);

    assert_snapshot(&format!("{:#?}", ShownTool(&tool)), r##"
        Tool {
            name: "QueryName",
            title: None,
            description: Some(
                "The returned value is optional and has type `String`",
            ),
            input_schema: {
                "type": String("object"),
                "properties": Object {
                    "id": Object {
                        "$ref": String("#/definitions/RealEnum"),
                    },
                },
                "required": Array [
                    String("id"),
                ],
                "definitions": Object {
                    "RealEnum": Object {
                        "description": String("the description for the enum\n\nValues:\nENUM_VALUE_1: ENUM_VALUE_1 is a value\nENUM_VALUE_2: ENUM_VALUE_2 is a value"),
                        "type": String("string"),
                        "enum": Array [
                            String("ENUM_VALUE_1"),
                            String("ENUM_VALUE_2"),
                        ],
                    },
                },
            },
            output_schema: Some(
                {
                    "type": String("object"),
                    "properties": Object {
                        "data": Object {
                            "type": String("object"),
                            "properties": Object {
                                "id": Object {
                                    "oneOf": Array [
                                        Object {
                                            "type": String("string"),
                                        },
                                        Object {
                                            "type": String("null"),
                                        },
                                    ],
                                },
                            },
                        },
                        "errors": Object {
                            "type": String("array"),
                            "items": Object {
                                "type": String("object"),
                                "properties": Object {
                                    "message": Object {
                                        "type": String("string"),
                                    },
                                    "locations": Object {
                                        "type": String("array"),
                                        "items": Object {
                                            "type": String("object"),
                                            "properties": Object {
                                                "line": Object {
                                                    "type": String("integer"),
                                                },
                                                "column": Object {
                                                    "type": String("integer"),
                                                },
                                            },
                                        },
                                    },
                                    "path": Object {
                                        "type": String("array"),
                                        "items": Object {
                                            "oneOf": Array [
                                                Object {
                                                    "type": String("string"),
                                                },
                                                Object {
                                                    "type": String("integer"),
                                                },
                                            ],
                                        },
                                    },
                                    "extensions": Object {
                                        "type": String("object"),
                                    },
                                },
                                "required": Array [
                                    String("message"),
                                ],
                            },
                        },
                        "extensions": Object {
                            "type": String("object"),
                        },
                    },
                },
            ),
            annotations: Some(
                ToolAnnotations {
                    title: None,
                    read_only_hint: Some(
                        true,
                    ),
                    destructive_hint: Some(
                        false,
                    ),
                    idempotent_hint: Some(
                        true,
                    ),
                    open_world_hint: Some(
                        true,
                    ),
                },
            ),
            execution: None,
            icons: None,
            meta: None,
        }
        "##);
}

#[test]
fn multiple_operations_should_error() {
    let operation = from_raw(
        RawOperation {
            source_text: "query QueryName { id } query QueryName { id }".to_string(),
            headers: None,
            variables: None,
            source_path: Some("operation.graphql".to_string()),
        },
        &SCHEMA,
        None,
        MutationMode::Never,
        false,
        false,
        true,
        &HashMap::new(),
        &HashMap::new(),
    );
    assert_snapshot(&format!("{operation:#?}"), r#"
        Err(
            TooManyOperations {
                source_path: Some(
                    "operation.graphql",
                ),
                count: 2,
            },
        )
        "#);
}

#[test]
fn unnamed_operations_should_be_skipped() {
    let operation = from_raw(
        RawOperation {
            source_text: "query { id }".to_string(),
            headers: None,
            variables: None,
            source_path: Some("operation.graphql".to_string()),
        },
        &SCHEMA,
        None,
        MutationMode::Never,
        false,
        false,
        true,
        &HashMap::new(),
        &HashMap::new(),
    );
    assert!(operation.unwrap().is_none());

    assert_noticed(
        &skip_notices("query { id }", Some("operation.graphql")),
        "Skipping unnamed operation in operation.graphql: { id }",
    );
}

#[test]
fn no_operations_should_error() {
    let operation = from_raw(
        RawOperation {
            source_text: "fragment Test on Query { id }".to_string(),
            headers: None,
            variables: None,
            source_path: Some("operation.graphql".to_string()),
        },
        &SCHEMA,
        None,
        MutationMode::Never,
        false,
        false,
        true,
        &HashMap::new(),
        &HashMap::new(),
    );
    assert_snapshot(&format!("{operation:#?}"), r#"
        Err(
            NoOperations {
                source_path: Some(
                    "operation.graphql",
                ),
            },
        )
        "#);
}

#[test]
fn schema_should_error() {
    let operation = from_raw(
        RawOperation {
            source_text: "type Query { id: String }".to_string(),
            headers: None,
            variables: None,
            source_path: None,
        },
        &SCHEMA,
        None,
        MutationMode::Never,
        false,
        false,
        true,
        &HashMap::new(),
        &HashMap::new(),
    );
    assert_snapshot(&format!("{operation:#?}"), r"
        Err(
            NoOperations {
                source_path: None,
            },
        )
        ");
}

#[test]
fn unknown_type_should_be_any() {
    let operation = from_raw(
        RawOperation {
            source_text: "query QueryName($id: FakeType) { id }".to_string(),
            headers: None,
            variables: None,
            source_path: None,
        },
        &SCHEMA,
        None,
        MutationMode::Never,
        false,
        false,
        true,
        &HashMap::new(),
        &HashMap::new(),
    )
    .unwrap()
    .unwrap();
    let tool = Tool::from(operation);

    assert_noticed(
        &warnings_for("query QueryName($id: FakeType) { id }", None),
        r#"Type not found in schema name="FakeType""#,
    );

    assert_snapshot(&format!("{:#?}", ShownTool(&tool)), r#"
        Tool {
            name: "QueryName",
            title: None,
            description: Some(
                "The returned value is optional and has type `String`",
            ),
            input_schema: {
                "type": String("object"),
                "properties": Object {
                    "id": Object {},
                },
            },
            output_schema: Some(
                {
                    "type": String("object"),
                    "properties": Object {
                        "data": Object {
                            "type": String("object"),
                            "properties": Object {
                                "id": Object {
                                    "oneOf": Array [
                                        Object {
                                            "type": String("string"),
                                        },
                                        Object {
                                            "type": String("null"),
                                        },
                                    ],
                                },
                            },
                        },
                        "errors": Object {
                            "type": String("array"),
                            "items": Object {
                                "type": String("object"),
                                "properties": Object {
                                    "message": Object {
                                        "type": String("string"),
                                    },
                                    "locations": Object {
                                        "type": String("array"),
                                        "items": Object {
                                            "type": String("object"),
                                            "properties": Object {
                                                "line": Object {
                                                    "type": String("integer"),
                                                },
                                                "column": Object {
                                                    "type": String("integer"),
                                                },
                                            },
                                        },
                                    },
                                    "path": Object {
                                        "type": String("array"),
                                        "items": Object {
                                            "oneOf": Array [
                                                Object {
                                                    "type": String("string"),
                                                },
                                                Object {
                                                    "type": String("integer"),
                                                },
                                            ],
                                        },
                                    },
                                    "extensions": Object {
                                        "type": String("object"),
                                    },
                                },
                                "required": Array [
                                    String("message"),
                                ],
                            },
                        },
                        "extensions": Object {
                            "type": String("object"),
                        },
                    },
                },
            ),
            annotations: Some(
                ToolAnnotations {
                    title: None,
                    read_only_hint: Some(
                        true,
                    ),
                    destructive_hint: Some(
                        false,
                    ),
                    idempotent_hint: Some(
                        true,
                    ),
                    open_world_hint: Some(
                        true,
                    ),
                },
            ),
            execution: None,
            icons: None,
            meta: None,
        }
        "#);
}

#[test]
fn custom_scalar_without_map_should_be_any() {
    let operation = from_raw(
        RawOperation {
            source_text: "query QueryName($id: RealCustomScalar) { id }".to_string(),
            headers: None,
            variables: None,
            source_path: None,
        },
        &SCHEMA,
        None,
        MutationMode::Never,
        false,
        false,
        true,
        &HashMap::new(),
        &HashMap::new(),
    )
    .unwrap()
    .unwrap();
    let tool = Tool::from(operation);

    assert_noticed(
        &warnings_for("query QueryName($id: RealCustomScalar) { id }", None),
        r#"custom scalars aren't currently supported without a custom_scalar_map name="RealCustomScalar""#,
    );

    assert_snapshot(&format!("{:#?}", ShownTool(&tool)), r##"
        Tool {
            name: "QueryName",
            title: None,
            description: Some(
                "The returned value is optional and has type `String`",
            ),
            input_schema: {
                "type": String("object"),
                "properties": Object {
                    "id": Object {
                        "oneOf": Array [
                            Object {
                                "$ref": String("#/definitions/RealCustomScalar"),
                            },
                            Object {
                                "type": String("null"),
                            },
                        ],
                    },
                },
                "definitions": Object {
                    "RealCustomScalar": Object {
                        "description": String("RealCustomScalar exists"),
                        "not": Object {
                            "type": String("null"),
                        },
                    },
                },
            },
            output_schema: Some(
                {
                    "type": String("object"),
                    "properties": Object {
                        "data": Object {
                            "type": String("object"),
                            "properties": Object {
                                "id": Object {
                                    "oneOf": Array [
                                        Object {
                                            "type": String("string"),
                                        },
                                        Object {
                                            "type": String("null"),
                                        },
                                    ],
                                },
                            },
                        },
                        "errors": Object {
                            "type": String("array"),
                            "items": Object {
                                "type": String("object"),
                                "properties": Object {
                                    "message": Object {
                                        "type": String("string"),
                                    },
                                    "locations": Object {
                                        "type": String("array"),
                                        "items": Object {
                                            "type": String("object"),
                                            "properties": Object {
                                                "line": Object {
                                                    "type": String("integer"),
                                                },
                                                "column": Object {
                                                    "type": String("integer"),
                                                },
                                            },
                                        },
                                    },
                                    "path": Object {
                                        "type": String("array"),
                                        "items": Object {
                                            "oneOf": Array [
                                                Object {
                                                    "type": String("string"),
                                                },
                                                Object {
                                                    "type": String("integer"),
                                                },
                                            ],
                                        },
                                    },
                                    "extensions": Object {
                                        "type": String("object"),
                                    },
                                },
                                "required": Array [
                                    String("message"),
                                ],
                            },
                        },
                        "extensions": Object {
                            "type": String("object"),
                        },
                    },
                },
            ),
            annotations: Some(
                ToolAnnotations {
                    title: None,
                    read_only_hint: Some(
                        true,
                    ),
                    destructive_hint: Some(
                        false,
                    ),
                    idempotent_hint: Some(
                        true,
                    ),
                    open_world_hint: Some(
                        true,
                    ),
                },
            ),
            execution: None,
            icons: None,
            meta: None,
        }
        "##);
}

#[test]
fn custom_scalar_with_map_but_not_found_should_error() {
    let operation = from_raw(
        RawOperation {
            source_text: "query QueryName($id: RealCustomScalar) { id }".to_string(),
            headers: None,
            variables: None,
            source_path: None,
        },
        &SCHEMA,
        Some(&scalar_map("{}").unwrap()),
        MutationMode::Never,
        false,
        false,
        true,
        &HashMap::new(),
        &HashMap::new(),
    )
    .unwrap()
    .unwrap();
    let tool = Tool::from(operation);

    assert_noticed(
        &warnings_for(
            "query QueryName($id: RealCustomScalar) { id }",
            Some(&scalar_map("{}").unwrap()),
        ),
        r#"custom scalar missing from custom_scalar_map name="RealCustomScalar""#,
    );

    assert_snapshot(&format!("{:#?}", ShownTool(&tool)), r##"
        Tool {
            name: "QueryName",
            title: None,
            description: Some(
                "The returned value is optional and has type `String`",
            ),
            input_schema: {
                "type": String("object"),
                "properties": Object {
                    "id": Object {
                        "oneOf": Array [
                            Object {
                                "$ref": String("#/definitions/RealCustomScalar"),
                            },
                            Object {
                                "type": String("null"),
                            },
                        ],
                    },
                },
                "definitions": Object {
                    "RealCustomScalar": Object {
                        "description": String("RealCustomScalar exists"),
                        "not": Object {
                            "type": String("null"),
                        },
                    },
                },
            },
            output_schema: Some(
                {
                    "type": String("object"),
                    "properties": Object {
                        "data": Object {
                            "type": String("object"),
                            "properties": Object {
                                "id": Object {
                                    "oneOf": Array [
                                        Object {
                                            "type": String("string"),
                                        },
                                        Object {
                                            "type": String("null"),
                                        },
                                    ],
                                },
                            },
                        },
                        "errors": Object {
                            "type": String("array"),
                            "items": Object {
                                "type": String("object"),
                                "properties": Object {
                                    "message": Object {
                                        "type": String("string"),
                                    },
                                    "locations": Object {
                                        "type": String("array"),
                                        "items": Object {
                                            "type": String("object"),
                                            "properties": Object {
                                                "line": Object {
                                                    "type": String("integer"),
                                                },
                                                "column": Object {
                                                    "type": String("integer"),
                                                },
                                            },
                                        },
                                    },
                                    "path": Object {
                                        "type": String("array"),
                                        "items": Object {
                                            "oneOf": Array [
                                                Object {
                                                    "type": String("string"),
                                                },
                                                Object {
                                                    "type": String("integer"),
                                                },
                                            ],
                                        },
                                    },
                                    "extensions": Object {
                                        "type": String("object"),
                                    },
                                },
                                "required": Array [
                                    String("message"),
                                ],
                            },
                        },
                        "extensions": Object {
                            "type": String("object"),
                        },
                    },
                },
            ),
            annotations: Some(
                ToolAnnotations {
                    title: None,
                    read_only_hint: Some(
                        true,
                    ),
                    destructive_hint: Some(
                        false,
                    ),
                    idempotent_hint: Some(
                        true,
                    ),
                    open_world_hint: Some(
                        true,
                    ),
                },
            ),
            execution: None,
            icons: None,
            meta: None,
        }
        "##);
}

#[test]
fn custom_scalar_with_map() {
    let custom_scalar_map =
        scalar_map("{ \"RealCustomScalar\": { \"type\": \"string\" }}");

    let operation = from_raw(
        RawOperation {
            source_text: "query QueryName($id: RealCustomScalar) { id }".to_string(),
            headers: None,
            variables: None,
            source_path: None,
        },
        &SCHEMA,
        custom_scalar_map.ok().as_ref(),
        MutationMode::Never,
        false,
        false,
        true,
        &HashMap::new(),
        &HashMap::new(),
    )
    .unwrap()
    .unwrap();
    let tool = Tool::from(operation);

    assert_snapshot(&format!("{:#?}", ShownTool(&tool)), r##"
        Tool {
            name: "QueryName",
            title: None,
            description: Some(
                "The returned value is optional and has type `String`",
            ),
            input_schema: {
                "type": String("object"),
                "properties": Object {
                    "id": Object {
                        "oneOf": Array [
                            Object {
                                "$ref": String("#/definitions/RealCustomScalar"),
                            },
                            Object {
                                "type": String("null"),
                            },
                        ],
                    },
                },
                "definitions": Object {
                    "RealCustomScalar": Object {
                        "description": String("RealCustomScalar exists"),
                        "allOf": Array [
                            Object {
                                "type": String("string"),
                            },
                            Object {
                                "not": Object {
                                    "type": String("null"),
                                },
                            },
                        ],
                    },
                },
            },
            output_schema: Some(
                {
                    "type": String("object"),
                    "properties": Object {
                        "data": Object {
                            "type": String("object"),
                            "properties": Object {
                                "id": Object {
                                    "oneOf": Array [
                                        Object {
                                            "type": String("string"),
                                        },
                                        Object {
                                            "type": String("null"),
                                        },
                                    ],
                                },
                            },
                        },
                        "errors": Object {
                            "type": String("array"),
                            "items": Object {
                                "type": String("object"),
                                "properties": Object {
                                    "message": Object {
                                        "type": String("string"),
                                    },
                                    "locations": Object {
                                        "type": String("array"),
                                        "items": Object {
                                            "type": String("object"),
                                            "properties": Object {
                                                "line": Object {
                                                    "type": String("integer"),
                                                },
                                                "column": Object {
                                                    "type": String("integer"),
                                                },
                                            },
                                        },
                                    },
                                    "path": Object {
                                        "type": String("array"),
                                        "items": Object {
                                            "oneOf": Array [
                                                Object {
                                                    "type": String("string"),
                                                },
                                                Object {
                                                    "type": String("integer"),
                                                },
                                            ],
                                        },
                                    },
                                    "extensions": Object {
                                        "type": String("object"),
                                    },
                                },
                                "required": Array [
                                    String("message"),
                                ],
                            },
                        },
                        "extensions": Object {
                            "type": String("object"),
                        },
                    },
                },
            ),
            annotations: Some(
                ToolAnnotations {
                    title: None,
                    read_only_hint: Some(
                        true,
                    ),
                    destructive_hint: Some(
                        false,
                    ),
                    idempotent_hint: Some(
                        true,
                    ),
                    open_world_hint: Some(
                        true,
                    ),
                },
            ),
            execution: None,
            icons: None,
            meta: None,
        }
        "##);
}

#[test]
fn tool_description() {
    const SDL: &str = r#"
        type Query {
          """
          Get a list of A
          """
          a(input: String!): [A]!

          """
          Get a B
          """
          b: B

          """
          Get a Z
          """
          z: Z
        }

        """
        A
        """
        type A {
          c: String
          d: D
        }

        """
        B
        """
        type B {
          d: D
          u: U
        }

        """
        D
        """
        type D {
          e: E
          f: String
          g: String
        }

        """
        E
        """
        enum E {
          """
          one
          """
          ONE
          """
          two
          """
          TWO
        }

        """
        F
        """
        scalar F

        """
        U
        """
        union U = M | W

        """
        M
        """
        type M {
          m: Int
        }

        """
        W
        """
        type W {
          w: Int
        }

        """
        Z
        """
        type Z {
          z: Int
          zz: Int
          zzz: Int
        }
        "#;

    let document = Parser::new().parse_ast(SDL, "schema.graphql").unwrap();
    let schema = document.to_schema().unwrap();

    let operation = from_raw_with(
        shaken_facts(TOOL_DESCRIPTION_SHAKEN),
        RawOperation {
            source_text: r###"
            query GetABZ($state: String!) {
              a(input: $input) {
                d {
                  e
                }
              }
              b {
                d {
                  ...JustF
                }
                u {
                  ... on M {
                    m
                  }
                  ... on W {
                    w
                  }
                }
              }
              z {
                ...JustZZZ
              }
            }

            fragment JustF on D {
              f
            }

            fragment JustZZZ on Z {
              zzz
            }
            "###
            .to_string(),
            headers: None,
            variables: None,
            source_path: None,
        },
        &schema,
        None,
        MutationMode::Never,
        false,
        false,
        true,
        &HashMap::new(),
        &HashMap::new(),
    )
    .unwrap()
    .unwrap();

    assert_snapshot(
        &operation.tool.description.unwrap(),
        r#"
        Get a list of A
        The returned value is an array of type `A`
        ---
        Get a B
        The returned value is optional and has type `B`
        ---
        Get a Z
        The returned value is optional and has type `Z`
        ---
        """A"""
        type A {
          d: D
        }

        """B"""
        type B {
          d: D
          u: U
        }

        """D"""
        type D {
          e: E
          f: String
        }

        """E"""
        enum E {
          """one"""
          ONE
          """two"""
          TWO
        }

        """U"""
        union U = M | W

        """M"""
        type M {
          m: Int
        }

        """W"""
        type W {
          w: Int
        }

        """Z"""
        type Z {
          zzz: Int
        }
        "#
    );
}

#[test]
fn tool_comment_description() {
    let operation = from_raw(
        RawOperation {
            source_text: r###"
            # Overridden tool #description
            query GetABZ($state: String!) {
              b {
                d {
                  f
                }
              }
            }
            "###
            .to_string(),
            headers: None,
            variables: None,
            source_path: None,
        },
        &SCHEMA,
        None,
        MutationMode::Never,
        false,
        false,
        true,
        &HashMap::new(),
        &HashMap::new(),
    )
    .unwrap()
    .unwrap();

    assert_snapshot(
        &operation.tool.description.unwrap(),
        "Overridden tool #description"
    );
}

#[test]
fn tool_empty_comment_description() {
    let operation = from_raw(
        RawOperation {
            source_text: r###"
            #

            #
            query GetABZ($state: String!) {
              id
            }
            "###
            .to_string(),
            headers: None,
            variables: None,
            source_path: None,
        },
        &SCHEMA,
        None,
        MutationMode::Never,
        false,
        false,
        true,
        &HashMap::new(),
        &HashMap::new(),
    )
    .unwrap()
    .unwrap();

    assert_snapshot(
        &operation.tool.description.unwrap(),
        "The returned value is optional and has type `String`"
    );
}

#[test]
fn no_schema_description() {
    let operation = from_raw_with(
        shaken_facts(ENUM_SHAKEN),
        RawOperation {
            source_text: r###"query GetABZ($state: String!) { id enum }"###.to_string(),
            headers: None,
            variables: None,
            source_path: None,
        },
        &SCHEMA,
        None,
        MutationMode::Never,
        false,
        true,
        true,
        &HashMap::new(),
        &HashMap::new(),
    )
    .unwrap()
    .unwrap();

    assert_snapshot(
        &operation.tool.description.unwrap(),
        r"
        The returned value is optional and has type `String`
        ---
        The returned value is optional and has type `RealEnum`
        "
    );
}

#[test]
fn no_type_description() {
    let operation = from_raw_with(
        shaken_facts(ENUM_SHAKEN),
        RawOperation {
            source_text: r###"query GetABZ($state: String!) { id enum }"###.to_string(),
            headers: None,
            variables: None,
            source_path: None,
        },
        &SCHEMA,
        None,
        MutationMode::Never,
        true,
        false,
        true,
        &HashMap::new(),
        &HashMap::new(),
    )
    .unwrap()
    .unwrap();

    assert_snapshot(
        &operation.tool.description.unwrap(),
        r#"
        ---
        """the description for the enum"""
        enum RealEnum {
          """ENUM_VALUE_1 is a value"""
          ENUM_VALUE_1
          """ENUM_VALUE_2 is a value"""
          ENUM_VALUE_2
        }
        "#
    );
}

#[test]
fn no_type_description_or_schema_description() {
    let operation = from_raw_with(
        shaken_facts(ENUM_SHAKEN),
        RawOperation {
            source_text: r###"query GetABZ($state: String!) { id enum }"###.to_string(),
            headers: None,
            variables: None,
            source_path: None,
        },
        &SCHEMA,
        None,
        MutationMode::Never,
        true,
        true,
        true,
        &HashMap::new(),
        &HashMap::new(),
    )
    .unwrap()
    .unwrap();

    assert_snapshot(
        &operation.tool.description.unwrap(),
        ""
    );
}

#[test]
fn recursive_inputs() {
    let operation = from_raw_with(
        response_facts(r#"{"field": {"description": "the Query.field field", "oneOf": [{"type": "string"}, {"type": "null"}]}}"#, &[("filter", &["the filter argument"])]),
        RawOperation {
            source_text: r###"query Test($filter: Filter){
                field(filter: $filter) {
                    id
                }
            }"###
                .to_string(),
            headers: None,
            variables: None,
            source_path: None,
        },
        &Schema::parse(
            r#"
                """the filter input"""
                input Filter {
                """the filter.field field"""
                    field: String
                    """the filter.filter field"""
                    filter: Filter
                }
                type Query {
                """the Query.field field"""
                  field(
                    """the filter argument"""
                    filter: Filter
                  ): String
                }
            "#,
            "operation.graphql",
        )
        .unwrap(),
        None,
        MutationMode::Never,
        true,
        true,
        true,
        &HashMap::new(),
        &HashMap::new(),
    )
    .unwrap()
    .unwrap();

    assert_snapshot(&format!("{:#?}", ShownTool(&operation.tool)), r##"
        Tool {
            name: "Test",
            title: None,
            description: Some(
                "",
            ),
            input_schema: {
                "type": String("object"),
                "properties": Object {
                    "filter": Object {
                        "oneOf": Array [
                            Object {
                                "description": String("the filter argument"),
                                "$ref": String("#/definitions/Filter"),
                            },
                            Object {
                                "type": String("null"),
                            },
                        ],
                    },
                },
                "definitions": Object {
                    "Filter": Object {
                        "description": String("the filter input"),
                        "type": String("object"),
                        "properties": Object {
                            "field": Object {
                                "oneOf": Array [
                                    Object {
                                        "description": String("the filter.field field"),
                                        "type": String("string"),
                                    },
                                    Object {
                                        "type": String("null"),
                                    },
                                ],
                            },
                            "filter": Object {
                                "oneOf": Array [
                                    Object {
                                        "description": String("the filter.filter field"),
                                        "$ref": String("#/definitions/Filter"),
                                    },
                                    Object {
                                        "type": String("null"),
                                    },
                                ],
                            },
                        },
                    },
                },
            },
            output_schema: Some(
                {
                    "type": String("object"),
                    "properties": Object {
                        "data": Object {
                            "type": String("object"),
                            "properties": Object {
                                "field": Object {
                                    "description": String("the Query.field field"),
                                    "oneOf": Array [
                                        Object {
                                            "type": String("string"),
                                        },
                                        Object {
                                            "type": String("null"),
                                        },
                                    ],
                                },
                            },
                        },
                        "errors": Object {
                            "type": String("array"),
                            "items": Object {
                                "type": String("object"),
                                "properties": Object {
                                    "message": Object {
                                        "type": String("string"),
                                    },
                                    "locations": Object {
                                        "type": String("array"),
                                        "items": Object {
                                            "type": String("object"),
                                            "properties": Object {
                                                "line": Object {
                                                    "type": String("integer"),
                                                },
                                                "column": Object {
                                                    "type": String("integer"),
                                                },
                                            },
                                        },
                                    },
                                    "path": Object {
                                        "type": String("array"),
                                        "items": Object {
                                            "oneOf": Array [
                                                Object {
                                                    "type": String("string"),
                                                },
                                                Object {
                                                    "type": String("integer"),
                                                },
                                            ],
                                        },
                                    },
                                    "extensions": Object {
                                        "type": String("object"),
                                    },
                                },
                                "required": Array [
                                    String("message"),
                                ],
                            },
                        },
                        "extensions": Object {
                            "type": String("object"),
                        },
                    },
                },
            ),
            annotations: Some(
                ToolAnnotations {
                    title: None,
                    read_only_hint: Some(
                        true,
                    ),
                    destructive_hint: Some(
                        false,
                    ),
                    idempotent_hint: Some(
                        true,
                    ),
                    open_world_hint: Some(
                        true,
                    ),
                },
            ),
            execution: None,
            icons: None,
            meta: None,
        }
        "##);
}

#[test]
fn with_variable_overrides() {
    let operation = from_raw(
        RawOperation {
            source_text: "query QueryName($id: ID, $name: String) { id }".to_string(),
            headers: None,
            variables: Some(Object::from_iter([(
                "id".to_string(),
                serde_json::Value::String("v".to_string()),
            )])),
            source_path: None,
        },
        &SCHEMA,
        None,
        MutationMode::Never,
        false,
        false,
        true,
        &HashMap::new(),
        &HashMap::new(),
    )
    .unwrap()
    .unwrap();
    let tool = Tool::from(operation);

    assert_snapshot(&format!("{:#?}", ShownTool(&tool)), r#"
        Tool {
            name: "QueryName",
            title: None,
            description: Some(
                "The returned value is optional and has type `String`",
            ),
            input_schema: {
                "type": String("object"),
                "properties": Object {
                    "name": Object {
                        "oneOf": Array [
                            Object {
                                "type": String("string"),
                            },
                            Object {
                                "type": String("null"),
                            },
                        ],
                    },
                },
            },
            output_schema: Some(
                {
                    "type": String("object"),
                    "properties": Object {
                        "data": Object {
                            "type": String("object"),
                            "properties": Object {
                                "id": Object {
                                    "oneOf": Array [
                                        Object {
                                            "type": String("string"),
                                        },
                                        Object {
                                            "type": String("null"),
                                        },
                                    ],
                                },
                            },
                        },
                        "errors": Object {
                            "type": String("array"),
                            "items": Object {
                                "type": String("object"),
                                "properties": Object {
                                    "message": Object {
                                        "type": String("string"),
                                    },
                                    "locations": Object {
                                        "type": String("array"),
                                        "items": Object {
                                            "type": String("object"),
                                            "properties": Object {
                                                "line": Object {
                                                    "type": String("integer"),
                                                },
                                                "column": Object {
                                                    "type": String("integer"),
                                                },
                                            },
                                        },
                                    },
                                    "path": Object {
                                        "type": String("array"),
                                        "items": Object {
                                            "oneOf": Array [
                                                Object {
                                                    "type": String("string"),
                                                },
                                                Object {
                                                    "type": String("integer"),
                                                },
                                            ],
                                        },
                                    },
                                    "extensions": Object {
                                        "type": String("object"),
                                    },
                                },
                                "required": Array [
                                    String("message"),
                                ],
                            },
                        },
                        "extensions": Object {
                            "type": String("object"),
                        },
                    },
                },
            ),
            annotations: Some(
                ToolAnnotations {
                    title: None,
                    read_only_hint: Some(
                        true,
                    ),
                    destructive_hint: Some(
                        false,
                    ),
                    idempotent_hint: Some(
                        true,
                    ),
                    open_world_hint: Some(
                        true,
                    ),
                },
            ),
            execution: None,
            icons: None,
            meta: None,
        }
        "#);
}

#[test]
fn input_schema_includes_variable_descriptions() {
    let operation = from_raw_with(
        argument_facts(&[("idArg", &["id description"])]),
        RawOperation {
            source_text: "query QueryName($idArg: ID) { customQuery(id: $idArg) { id } }"
                .to_string(),
            headers: None,
            variables: None,
            source_path: None,
        },
        &SCHEMA,
        None,
        MutationMode::Never,
        false,
        false,
        true,
        &HashMap::new(),
        &HashMap::new(),
    )
    .unwrap()
    .unwrap();
    let tool = Tool::from(operation);

    let json = sorted(&tool.input_schema);
    assert_snapshot(&serde_json::to_string_pretty(&json).unwrap(), r#"
        {
          "properties": {
            "idArg": {
              "oneOf": [
                {
                  "description": "id description",
                  "type": "string"
                },
                {
                  "type": "null"
                }
              ]
            }
          },
          "type": "object"
        }
        "#);
}

#[test]
fn input_schema_includes_joined_variable_descriptions_if_multiple() {
    let operation = from_raw_with(
        argument_facts(&[("flag", &["Skipped when true.", "a flag"]), ("idArg", &["id description"])]),
        RawOperation {
            source_text: "query QueryName($idArg: ID, $flag: Boolean) { customQuery(id: $idArg, flag: $flag) { id @skip(if: $flag) } }".to_string(),
            headers: None,
            variables: None,
            source_path: None,
        },
        &SCHEMA,
        None,
        MutationMode::Never,
        false,
        false,
        true,
        &HashMap::new(),
        &HashMap::new(),
    )
        .unwrap()
        .unwrap();
    let tool = Tool::from(operation);

    let json = sorted(&tool.input_schema);
    assert_snapshot(&serde_json::to_string_pretty(&json).unwrap(), r#"
        {
          "properties": {
            "flag": {
              "oneOf": [
                {
                  "description": "Skipped when true.#a flag",
                  "type": "boolean"
                },
                {
                  "type": "null"
                }
              ]
            },
            "idArg": {
              "oneOf": [
                {
                  "description": "id description",
                  "type": "string"
                },
                {
                  "type": "null"
                }
              ]
            }
          },
          "type": "object"
        }
        "#);
}

#[test]
fn input_schema_includes_directive_variable_descriptions() {
    let operation = from_raw_with(
        argument_facts(&[("idArg", &["id description"]), ("skipArg", &["Skipped when true."])]),
        RawOperation {
            source_text: "query QueryName($idArg: ID, $skipArg: Boolean) { customQuery(id: $idArg) { id @skip(if: $skipArg) } }".to_string(),
            headers: None,
            variables: None,
            source_path: None,
        },
        &SCHEMA,
        None,
        MutationMode::Never,
        false,
        false,
        true,
        &HashMap::new(),
        &HashMap::new(),
    )
        .unwrap()
        .unwrap();
    let tool = Tool::from(operation);

    assert_snapshot(&serde_json::to_string_pretty(&tool.input_schema).unwrap(), r#"
        {
          "type": "object",
          "properties": {
            "idArg": {
              "oneOf": [
                {
                  "description": "id description",
                  "type": "string"
                },
                {
                  "type": "null"
                }
              ]
            },
            "skipArg": {
              "oneOf": [
                {
                  "description": "Skipped when true.",
                  "type": "boolean"
                },
                {
                  "type": "null"
                }
              ]
            }
          }
        }
        "#);
}

#[test]
fn operation_name_with_named_query() {
    let source_text = "query GetUser($id: ID!) { user(id: $id) { name email } }";
    let raw_op = RawOperation {
        source_text: source_text.to_string(),
        headers: None,
        variables: None,
        source_path: None,
    };
    let operation = from_raw(
        raw_op,
        &SCHEMA,
        None,
        MutationMode::Never,
        false,
        false,
        true,
        &HashMap::new(),
        &HashMap::new(),
    )
    .unwrap()
    .unwrap();

    let op_details = operation.operation(Value::Null).unwrap();
    assert_eq!(op_details.operation_name, Some(String::from("GetUser")));
    }

    #[test]
    fn operation_name_with_named_mutation() {
        let source_text =
            "mutation CreateUser($input: UserInput!) { createUser(input: $input) { id name } }";
    let raw_op = RawOperation {
        source_text: source_text.to_string(),
        headers: None,
        variables: None,
        source_path: None,
    };
    let operation = from_raw(
        raw_op,
        &SCHEMA,
        None,
        MutationMode::Explicit,
        false,
        false,
        true,
        &HashMap::new(),
        &HashMap::new(),
    )
    .unwrap()
    .unwrap();

    let op_details = operation.operation(Value::Null).unwrap();
    assert_eq!(op_details.operation_name, Some(String::from("CreateUser")));
    }

    #[test]
    fn operation_variable_comments_override_schema_descriptions() {
        let operation = from_raw(
            RawOperation {
                source_text: "# operation description\nquery QueryName(# id comment override\n$idArg: ID) { customQuery(id: $idArg) { id } }".to_string(),
            headers: None,
            variables: None,
            source_path: None,
        },
        &SCHEMA,
        None,
        MutationMode::Never,
        false,
        false,
        true,
        &HashMap::new(),
        &HashMap::new(),
    )
        .unwrap()
        .unwrap();
    let tool = Tool::from(operation);

    let json = sorted(&tool.input_schema);
    assert_snapshot(&serde_json::to_string_pretty(&json).unwrap(), r#"
        {
          "properties": {
            "idArg": {
              "oneOf": [
                {
                  "description": "id comment override",
                  "type": "string"
                },
                {
                  "type": "null"
                }
              ]
            }
          },
          "type": "object"
        }
        "#);
}

#[test]
fn operation_variable_comment_override_supports_multiline_comments() {
    let operation = from_raw_with(
        argument_facts(&[("idArg", &["id description"])]),
        RawOperation {
            source_text: "# operation description\nquery QueryName(# id comment override\n # multi-line comment \n$idArg: ID) { customQuery(id: $idArg) { id } }".to_string(),
            headers: None,
            variables: None,
            source_path: None,
        },
        &SCHEMA,
        None,
        MutationMode::Never,
        false,
        false,
        true,
        &HashMap::new(),
        &HashMap::new(),
    )
        .unwrap()
        .unwrap();
    let tool = Tool::from(operation);

    let json = sorted(&tool.input_schema);
    assert_snapshot(&serde_json::to_string_pretty(&json).unwrap(), r#"
        {
          "properties": {
            "idArg": {
              "oneOf": [
                {
                  "description": "id comment override\n multi-line comment",
                  "type": "string"
                },
                {
                  "type": "null"
                }
              ]
            }
          },
          "type": "object"
        }
        "#);
}

#[test]
fn comment_with_parens_has_comments_extracted_correctly() {
    let operation = from_raw_with(
        argument_facts(&[("idArg", &["id description"])]),
        RawOperation {
            source_text: "query QueryName # a comment (with parens)\n(# id comment override\n # multi-line comment \n$idArg: ID) { customQuery(id: $idArg) { id } }".to_string(),
            headers: None,
            variables: None,
            source_path: None,
        },
        &SCHEMA,
        None,
        MutationMode::Never,
        false,
        false,
        true,
        &HashMap::new(),
        &HashMap::new(),
    )
        .unwrap()
        .unwrap();
    let tool = Tool::from(operation);

    let json = sorted(&tool.input_schema);
    assert_snapshot(&serde_json::to_string_pretty(&json).unwrap(), r#"
        {
          "properties": {
            "idArg": {
              "oneOf": [
                {
                  "description": "id comment override\n multi-line comment",
                  "type": "string"
                },
                {
                  "type": "null"
                }
              ]
            }
          },
          "type": "object"
        }
        "#);
}

#[test]
fn multiline_comment_with_odd_spacing_and_parens_has_comments_extracted_correctly() {
    let operation = from_raw_with(
        argument_facts(&[("idArg", &["id description"])]),
        RawOperation {
            source_text: "#  operation comment\n\nquery QueryName # a comment \n#     extra space\n\n\n#  blank lines (with parens)\n\n# another (paren)\n(# id comment override\n # multi-line comment \n$idArg: ID\n, \n# a flag\n$flag: Boolean) { customQuery(id: $idArg, skip: $flag) { id } }".to_string(),
            headers: None,
            variables: None,
            source_path: None,
        },
        &SCHEMA,
        None,
        MutationMode::Never,
        false,
        false,
        true,
        &HashMap::new(),
        &HashMap::new(),
    )
        .unwrap()
        .unwrap();
    let tool = Tool::from(operation);

    let json = sorted(&tool.input_schema);
    assert_snapshot(&serde_json::to_string_pretty(&json).unwrap(), r#"
        {
          "properties": {
            "flag": {
              "oneOf": [
                {
                  "description": "a flag",
                  "type": "boolean"
                },
                {
                  "type": "null"
                }
              ]
            },
            "idArg": {
              "oneOf": [
                {
                  "description": "id comment override\n multi-line comment",
                  "type": "string"
                },
                {
                  "type": "null"
                }
              ]
            }
          },
          "type": "object"
        }
        "#);
}

#[test]
fn operation_with_no_variables_is_handled_properly() {
    let operation = from_raw(
        RawOperation {
            source_text: "query QueryName { customQuery(id: \"123\") { id } }".to_string(),
            headers: None,
            variables: None,
            source_path: None,
        },
        &SCHEMA,
        None,
        MutationMode::Never,
        false,
        false,
        true,
        &HashMap::new(),
        &HashMap::new(),
    )
    .unwrap()
    .unwrap();
    let tool = Tool::from(operation);

    let json = sorted(&tool.input_schema);
    assert_snapshot(&serde_json::to_string_pretty(&json).unwrap(), r###"
        {
          "properties": {},
          "type": "object"
        }
        "###);
}

#[test]
fn commas_between_variables_are_ignored() {
    let operation = from_raw_with(
        argument_facts(&[("idArg", &["id description"])]),
        RawOperation {
            source_text: "query QueryName(# id arg\n $idArg: ID,,\n,,\n # a flag\n $flag: Boolean,  ,,) { customQuery(id: $idArg, flag: $flag) { id } }".to_string(),
            headers: None,
            variables: None,
            source_path: None,
        },
        &SCHEMA,
        None,
        MutationMode::Never,
        false,
        false,
        true,
        &HashMap::new(),
        &HashMap::new(),
    )
        .unwrap()
        .unwrap();
    let tool = Tool::from(operation);

    let json = sorted(&tool.input_schema);
    assert_snapshot(&serde_json::to_string_pretty(&json).unwrap(), r#"
        {
          "properties": {
            "flag": {
              "oneOf": [
                {
                  "description": "a flag",
                  "type": "boolean"
                },
                {
                  "type": "null"
                }
              ]
            },
            "idArg": {
              "oneOf": [
                {
                  "description": "id arg",
                  "type": "string"
                },
                {
                  "type": "null"
                }
              ]
            }
          },
          "type": "object"
        }
        "#);
}

#[test]
fn input_schema_include_properties_field_even_when_operation_has_no_input_args() {
    let operation = from_raw(
        RawOperation {
            source_text: "query TestOp { testOp { id } }".to_string(),
            headers: None,
            variables: None,
            source_path: None,
        },
        &SCHEMA,
        None,
        MutationMode::Never,
        false,
        false,
        true,
        &HashMap::new(),
        &HashMap::new(),
    )
    .unwrap()
    .unwrap();
    let tool = Tool::from(operation);

    let json = sorted(&tool.input_schema);
    assert_snapshot(&serde_json::to_string_pretty(&json).unwrap(), r#"
        {
          "properties": {},
          "type": "object"
        }
        "#);
}

#[test]
fn nullable_list_of_nullable_input_objects() {
    let operation = from_raw(
        RawOperation {
            source_text: "query QueryName($objects: [RealInputObject]) { id }".to_string(),
            headers: None,
            variables: None,
            source_path: None,
        },
        &SCHEMA,
        None,
        MutationMode::Never,
        false,
        false,
        true,
        &HashMap::new(),
        &HashMap::new(),
    )
    .unwrap()
    .unwrap();
    let tool = Tool::from(operation);

    assert_snapshot(&format!("{:#?}", ShownTool(&tool)), r##"
        Tool {
            name: "QueryName",
            title: None,
            description: Some(
                "The returned value is optional and has type `String`",
            ),
            input_schema: {
                "type": String("object"),
                "properties": Object {
                    "objects": Object {
                        "oneOf": Array [
                            Object {
                                "type": String("array"),
                                "items": Object {
                                    "oneOf": Array [
                                        Object {
                                            "$ref": String("#/definitions/RealInputObject"),
                                        },
                                        Object {
                                            "type": String("null"),
                                        },
                                    ],
                                },
                            },
                            Object {
                                "type": String("null"),
                            },
                        ],
                    },
                },
                "definitions": Object {
                    "RealInputObject": Object {
                        "type": String("object"),
                        "properties": Object {
                            "optional": Object {
                                "oneOf": Array [
                                    Object {
                                        "description": String("optional is a input field that is optional"),
                                        "type": String("string"),
                                    },
                                    Object {
                                        "type": String("null"),
                                    },
                                ],
                            },
                            "required": Object {
                                "description": String("required is a input field that is required"),
                                "type": String("string"),
                            },
                        },
                        "required": Array [
                            String("required"),
                        ],
                    },
                },
            },
            output_schema: Some(
                {
                    "type": String("object"),
                    "properties": Object {
                        "data": Object {
                            "type": String("object"),
                            "properties": Object {
                                "id": Object {
                                    "oneOf": Array [
                                        Object {
                                            "type": String("string"),
                                        },
                                        Object {
                                            "type": String("null"),
                                        },
                                    ],
                                },
                            },
                        },
                        "errors": Object {
                            "type": String("array"),
                            "items": Object {
                                "type": String("object"),
                                "properties": Object {
                                    "message": Object {
                                        "type": String("string"),
                                    },
                                    "locations": Object {
                                        "type": String("array"),
                                        "items": Object {
                                            "type": String("object"),
                                            "properties": Object {
                                                "line": Object {
                                                    "type": String("integer"),
                                                },
                                                "column": Object {
                                                    "type": String("integer"),
                                                },
                                            },
                                        },
                                    },
                                    "path": Object {
                                        "type": String("array"),
                                        "items": Object {
                                            "oneOf": Array [
                                                Object {
                                                    "type": String("string"),
                                                },
                                                Object {
                                                    "type": String("integer"),
                                                },
                                            ],
                                        },
                                    },
                                    "extensions": Object {
                                        "type": String("object"),
                                    },
                                },
                                "required": Array [
                                    String("message"),
                                ],
                            },
                        },
                        "extensions": Object {
                            "type": String("object"),
                        },
                    },
                },
            ),
            annotations: Some(
                ToolAnnotations {
                    title: None,
                    read_only_hint: Some(
                        true,
                    ),
                    destructive_hint: Some(
                        false,
                    ),
                    idempotent_hint: Some(
                        true,
                    ),
                    open_world_hint: Some(
                        true,
                    ),
                },
            ),
            execution: None,
            icons: None,
            meta: None,
        }
        "##);

    let json = sorted(&tool.input_schema);
    assert_snapshot(&serde_json::to_string_pretty(&json).unwrap(), r###"
        {
          "definitions": {
            "RealInputObject": {
              "properties": {
                "optional": {
                  "oneOf": [
                    {
                      "description": "optional is a input field that is optional",
                      "type": "string"
                    },
                    {
                      "type": "null"
                    }
                  ]
                },
                "required": {
                  "description": "required is a input field that is required",
                  "type": "string"
                }
              },
              "required": [
                "required"
              ],
              "type": "object"
            }
          },
          "properties": {
            "objects": {
              "oneOf": [
                {
                  "items": {
                    "oneOf": [
                      {
                        "$ref": "#/definitions/RealInputObject"
                      },
                      {
                        "type": "null"
                      }
                    ]
                  },
                  "type": "array"
                },
                {
                  "type": "null"
                }
              ]
            }
          },
          "type": "object"
        }
        "###);
}

#[test]
fn non_nullable_list_of_non_nullable_input_objects() {
    let operation = from_raw(
        RawOperation {
            source_text: "query QueryName($objects: [RealInputObject!]!) { id }".to_string(),
            headers: None,
            variables: None,
            source_path: None,
        },
        &SCHEMA,
        None,
        MutationMode::Never,
        false,
        false,
        true,
        &HashMap::new(),
        &HashMap::new(),
    )
    .unwrap()
    .unwrap();
    let tool = Tool::from(operation);

    assert_snapshot(&format!("{:#?}", ShownTool(&tool)), r##"
        Tool {
            name: "QueryName",
            title: None,
            description: Some(
                "The returned value is optional and has type `String`",
            ),
            input_schema: {
                "type": String("object"),
                "properties": Object {
                    "objects": Object {
                        "type": String("array"),
                        "items": Object {
                            "$ref": String("#/definitions/RealInputObject"),
                        },
                    },
                },
                "required": Array [
                    String("objects"),
                ],
                "definitions": Object {
                    "RealInputObject": Object {
                        "type": String("object"),
                        "properties": Object {
                            "optional": Object {
                                "oneOf": Array [
                                    Object {
                                        "description": String("optional is a input field that is optional"),
                                        "type": String("string"),
                                    },
                                    Object {
                                        "type": String("null"),
                                    },
                                ],
                            },
                            "required": Object {
                                "description": String("required is a input field that is required"),
                                "type": String("string"),
                            },
                        },
                        "required": Array [
                            String("required"),
                        ],
                    },
                },
            },
            output_schema: Some(
                {
                    "type": String("object"),
                    "properties": Object {
                        "data": Object {
                            "type": String("object"),
                            "properties": Object {
                                "id": Object {
                                    "oneOf": Array [
                                        Object {
                                            "type": String("string"),
                                        },
                                        Object {
                                            "type": String("null"),
                                        },
                                    ],
                                },
                            },
                        },
                        "errors": Object {
                            "type": String("array"),
                            "items": Object {
                                "type": String("object"),
                                "properties": Object {
                                    "message": Object {
                                        "type": String("string"),
                                    },
                                    "locations": Object {
                                        "type": String("array"),
                                        "items": Object {
                                            "type": String("object"),
                                            "properties": Object {
                                                "line": Object {
                                                    "type": String("integer"),
                                                },
                                                "column": Object {
                                                    "type": String("integer"),
                                                },
                                            },
                                        },
                                    },
                                    "path": Object {
                                        "type": String("array"),
                                        "items": Object {
                                            "oneOf": Array [
                                                Object {
                                                    "type": String("string"),
                                                },
                                                Object {
                                                    "type": String("integer"),
                                                },
                                            ],
                                        },
                                    },
                                    "extensions": Object {
                                        "type": String("object"),
                                    },
                                },
                                "required": Array [
                                    String("message"),
                                ],
                            },
                        },
                        "extensions": Object {
                            "type": String("object"),
                        },
                    },
                },
            ),
            annotations: Some(
                ToolAnnotations {
                    title: None,
                    read_only_hint: Some(
                        true,
                    ),
                    destructive_hint: Some(
                        false,
                    ),
                    idempotent_hint: Some(
                        true,
                    ),
                    open_world_hint: Some(
                        true,
                    ),
                },
            ),
            execution: None,
            icons: None,
            meta: None,
        }
        "##);

    let json = sorted(&tool.input_schema);
    assert_snapshot(&serde_json::to_string_pretty(&json).unwrap(), r###"
        {
          "definitions": {
            "RealInputObject": {
              "properties": {
                "optional": {
                  "oneOf": [
                    {
                      "description": "optional is a input field that is optional",
                      "type": "string"
                    },
                    {
                      "type": "null"
                    }
                  ]
                },
                "required": {
                  "description": "required is a input field that is required",
                  "type": "string"
                }
              },
              "required": [
                "required"
              ],
              "type": "object"
            }
          },
          "properties": {
            "objects": {
              "items": {
                "$ref": "#/definitions/RealInputObject"
              },
              "type": "array"
            }
          },
          "required": [
            "objects"
          ],
          "type": "object"
        }
        "###);
}

#[test]
fn subscriptions() {
    assert!(
        from_raw(
            RawOperation {
                source_text: "subscription SubscriptionName { id }".to_string(),
                headers: None,
                variables: None,
                source_path: None,
            },
            &SCHEMA,
            None,
            MutationMode::Never,
            false,
            false,
            true,
            &HashMap::new(),
            &HashMap::new(),
        )
        .unwrap()
        .is_none()
    );
}

#[test]
fn mutation_mode_none() {
    assert!(
        from_raw(
            RawOperation {
                source_text: "mutation MutationName { id }".to_string(),
                headers: None,
                variables: None,
                source_path: None,
            },
            &SCHEMA,
            None,
            MutationMode::Never,
            false,
            false,
            true,
            &HashMap::new(),
            &HashMap::new(),
        )
        .ok()
        .unwrap()
        .is_none()
    );
}

#[test]
fn mutation_mode_explicit() {
    let operation = from_raw(
        RawOperation {
            source_text: "mutation MutationName { id }".to_string(),
            headers: None,
            variables: None,
            source_path: None,
        },
        &SCHEMA,
        None,
        MutationMode::Explicit,
        false,
        false,
        true,
        &HashMap::new(),
        &HashMap::new(),
    )
    .unwrap()
    .unwrap();

    assert_snapshot(&format!("{:#?}", ShownOperation(&operation)), r#"
        Operation {
            tool: Tool {
                name: "MutationName",
                title: None,
                description: Some(
                    "The returned value is optional and has type `String`",
                ),
                input_schema: {
                    "type": String("object"),
                    "properties": Object {},
                },
                output_schema: Some(
                    {
                        "type": String("object"),
                        "properties": Object {
                            "data": Object {
                                "type": String("object"),
                                "properties": Object {
                                    "id": Object {
                                        "oneOf": Array [
                                            Object {
                                                "type": String("string"),
                                            },
                                            Object {
                                                "type": String("null"),
                                            },
                                        ],
                                    },
                                },
                            },
                            "errors": Object {
                                "type": String("array"),
                                "items": Object {
                                    "type": String("object"),
                                    "properties": Object {
                                        "message": Object {
                                            "type": String("string"),
                                        },
                                        "locations": Object {
                                            "type": String("array"),
                                            "items": Object {
                                                "type": String("object"),
                                                "properties": Object {
                                                    "line": Object {
                                                        "type": String("integer"),
                                                    },
                                                    "column": Object {
                                                        "type": String("integer"),
                                                    },
                                                },
                                            },
                                        },
                                        "path": Object {
                                            "type": String("array"),
                                            "items": Object {
                                                "oneOf": Array [
                                                    Object {
                                                        "type": String("string"),
                                                    },
                                                    Object {
                                                        "type": String("integer"),
                                                    },
                                                ],
                                            },
                                        },
                                        "extensions": Object {
                                            "type": String("object"),
                                        },
                                    },
                                    "required": Array [
                                        String("message"),
                                    ],
                                },
                            },
                            "extensions": Object {
                                "type": String("object"),
                            },
                        },
                    },
                ),
                annotations: Some(
                    ToolAnnotations {
                        title: None,
                        read_only_hint: Some(
                            false,
                        ),
                        destructive_hint: Some(
                            true,
                        ),
                        idempotent_hint: None,
                        open_world_hint: Some(
                            true,
                        ),
                    },
                ),
                execution: None,
                icons: None,
                meta: None,
            },
            inner: RawOperation {
                source_text: "mutation MutationName { id }",
                headers: None,
                variables: None,
                source_path: None,
            },
            operation_name: "MutationName",
            stripped_source_text: None,
            private_fields: None,
        }
        "#);
}

#[test]
fn mutation_mode_all() {
    let operation = from_raw(
        RawOperation {
            source_text: "mutation MutationName { id }".to_string(),
            headers: None,
            variables: None,
            source_path: None,
        },
        &SCHEMA,
        None,
        MutationMode::All,
        false,
        false,
        true,
        &HashMap::new(),
        &HashMap::new(),
    )
    .unwrap()
    .unwrap();

    assert_snapshot(&format!("{:#?}", ShownOperation(&operation)), r#"
        Operation {
            tool: Tool {
                name: "MutationName",
                title: None,
                description: Some(
                    "The returned value is optional and has type `String`",
                ),
                input_schema: {
                    "type": String("object"),
                    "properties": Object {},
                },
                output_schema: Some(
                    {
                        "type": String("object"),
                        "properties": Object {
                            "data": Object {
                                "type": String("object"),
                                "properties": Object {
                                    "id": Object {
                                        "oneOf": Array [
                                            Object {
                                                "type": String("string"),
                                            },
                                            Object {
                                                "type": String("null"),
                                            },
                                        ],
                                    },
                                },
                            },
                            "errors": Object {
                                "type": String("array"),
                                "items": Object {
                                    "type": String("object"),
                                    "properties": Object {
                                        "message": Object {
                                            "type": String("string"),
                                        },
                                        "locations": Object {
                                            "type": String("array"),
                                            "items": Object {
                                                "type": String("object"),
                                                "properties": Object {
                                                    "line": Object {
                                                        "type": String("integer"),
                                                    },
                                                    "column": Object {
                                                        "type": String("integer"),
                                                    },
                                                },
                                            },
                                        },
                                        "path": Object {
                                            "type": String("array"),
                                            "items": Object {
                                                "oneOf": Array [
                                                    Object {
                                                        "type": String("string"),
                                                    },
                                                    Object {
                                                        "type": String("integer"),
                                                    },
                                                ],
                                            },
                                        },
                                        "extensions": Object {
                                            "type": String("object"),
                                        },
                                    },
                                    "required": Array [
                                        String("message"),
                                    ],
                                },
                            },
                            "extensions": Object {
                                "type": String("object"),
                            },
                        },
                    },
                ),
                annotations: Some(
                    ToolAnnotations {
                        title: None,
                        read_only_hint: Some(
                            false,
                        ),
                        destructive_hint: Some(
                            true,
                        ),
                        idempotent_hint: None,
                        open_world_hint: Some(
                            true,
                        ),
                    },
                ),
                execution: None,
                icons: None,
                meta: None,
            },
            inner: RawOperation {
                source_text: "mutation MutationName { id }",
                headers: None,
                variables: None,
                source_path: None,
            },
            operation_name: "MutationName",
            stripped_source_text: None,
            private_fields: None,
        }
        "#);
}

#[test]
fn no_variables() {
    let operation = from_raw(
        RawOperation {
            source_text: "query QueryName { id }".to_string(),
            headers: None,
            variables: None,
            source_path: None,
        },
        &SCHEMA,
        None,
        MutationMode::Never,
        false,
        false,
        true,
        &HashMap::new(),
        &HashMap::new(),
    )
    .unwrap()
    .unwrap();
    let tool = Tool::from(operation);

    assert_snapshot(&format!("{:#?}", ShownTool(&tool)), r#"
        Tool {
            name: "QueryName",
            title: None,
            description: Some(
                "The returned value is optional and has type `String`",
            ),
            input_schema: {
                "type": String("object"),
                "properties": Object {},
            },
            output_schema: Some(
                {
                    "type": String("object"),
                    "properties": Object {
                        "data": Object {
                            "type": String("object"),
                            "properties": Object {
                                "id": Object {
                                    "oneOf": Array [
                                        Object {
                                            "type": String("string"),
                                        },
                                        Object {
                                            "type": String("null"),
                                        },
                                    ],
                                },
                            },
                        },
                        "errors": Object {
                            "type": String("array"),
                            "items": Object {
                                "type": String("object"),
                                "properties": Object {
                                    "message": Object {
                                        "type": String("string"),
                                    },
                                    "locations": Object {
                                        "type": String("array"),
                                        "items": Object {
                                            "type": String("object"),
                                            "properties": Object {
                                                "line": Object {
                                                    "type": String("integer"),
                                                },
                                                "column": Object {
                                                    "type": String("integer"),
                                                },
                                            },
                                        },
                                    },
                                    "path": Object {
                                        "type": String("array"),
                                        "items": Object {
                                            "oneOf": Array [
                                                Object {
                                                    "type": String("string"),
                                                },
                                                Object {
                                                    "type": String("integer"),
                                                },
                                            ],
                                        },
                                    },
                                    "extensions": Object {
                                        "type": String("object"),
                                    },
                                },
                                "required": Array [
                                    String("message"),
                                ],
                            },
                        },
                        "extensions": Object {
                            "type": String("object"),
                        },
                    },
                },
            ),
            annotations: Some(
                ToolAnnotations {
                    title: None,
                    read_only_hint: Some(
                        true,
                    ),
                    destructive_hint: Some(
                        false,
                    ),
                    idempotent_hint: Some(
                        true,
                    ),
                    open_world_hint: Some(
                        true,
                    ),
                },
            ),
            execution: None,
            icons: None,
            meta: None,
        }
        "#);
    assert_snapshot(&serde_json::to_string_pretty(&tool.input_schema).unwrap(), r#"
        {
          "type": "object",
          "properties": {}
        }
        "#);
}

#[test]
fn tool_character_length_without_output_schema() {
    let mut input_schema = Object::new();
    input_schema.insert("type".to_string(), parse(r#""object""#));
    input_schema.insert(
        "properties".to_string(),
        parse(r#"{ "id": { "type": "string" } }"#),
    );

    let tool = new_tool("test_tool", "A test tool description", input_schema.clone());

    let length = tool_character_length(&tool).unwrap();

    let expected_input_schema_len =
        serde_json::to_string_pretty(&Value::Object(input_schema.clone()))
            .unwrap()
            .len();

    assert_eq!(
        length,
        "test_tool".len() + "A test tool description".len() + expected_input_schema_len
    );
}

#[test]
fn tool_character_length_with_output_schema() {
    let mut input_schema = Object::new();
    input_schema.insert("type".to_string(), parse(r#""object""#));
    input_schema.insert(
        "properties".to_string(),
        parse(r#"{ "id": { "type": "string" } }"#),
    );

    let mut tool = new_tool("test_tool", "A test tool description", input_schema.clone());

    let mut output_schema = Object::new();
    output_schema.insert("type".to_string(), parse(r#""object""#));
    output_schema.insert(
        "properties".to_string(),
        parse(r#"{
            "data": {
                "type": "object",
                "properties": {
                    "result": { "type": "string" }
                }
            }
        }"#),
    );
    tool.output_schema = Some(output_schema.clone());

    let length = tool_character_length(&tool).unwrap();

    let expected_input_schema_len =
        serde_json::to_string_pretty(&Value::Object(input_schema.clone()))
            .unwrap()
            .len();

    let expected_output_schema_len =
        serde_json::to_string_pretty(&Value::Object(output_schema.clone()))
            .unwrap()
            .len();

    assert_eq!(
        length,
        "test_tool".len()
            + "A test tool description".len()
            + expected_input_schema_len
            + expected_output_schema_len
    );
}

#[test]
fn tool_character_length_output_schema_adds_to_total() {
    let mut input_schema = Object::new();
    input_schema.insert("type".to_string(), parse(r#""object""#));

    let tool_without = new_tool("test_tool", "A test tool description", input_schema.clone());

    let mut tool_with = tool_without.clone();
    let mut output_schema = Object::new();
    output_schema.insert("type".to_string(), parse(r#""object""#));
    output_schema.insert(
        "properties".to_string(),
        parse(r#"{ "data": { "type": "string" } }"#),
    );
    tool_with.output_schema = Some(output_schema.clone());

    let length_without = tool_character_length(&tool_without).unwrap();
    let length_with = tool_character_length(&tool_with).unwrap();

    let expected_output_schema_len =
        serde_json::to_string_pretty(&Value::Object(output_schema.clone()))
            .unwrap()
            .len();

    assert_eq!(length_with - length_without, expected_output_schema_len);
}

#[test]
fn explicit_description_overrides_auto_generated() {
    let explicit_desc = "My custom tool description from PQ manifest";
    let description_overrides =
        HashMap::from([("QueryName".to_string(), explicit_desc.to_string())]);
    let operation = from_raw(
        RawOperation {
            source_text: "query QueryName($id: ID) { id }".to_string(),
            headers: None,
            variables: None,
            source_path: None,
        },
        &SCHEMA,
        None,
        MutationMode::Never,
        false,
        false,
        false,
        &HashMap::new(),
        &description_overrides,
    )
    .unwrap()
    .unwrap();

    assert_eq!(
        operation.tool.description.as_deref(),
        Some(explicit_desc),
        "tool description should use the override keyed by operation name"
    );
}

#[test]
fn no_explicit_description_falls_back_to_auto_generated() {
    let operation = from_raw(
        RawOperation {
            source_text: "query QueryName($id: ID) { id }".to_string(),
            headers: None,
            variables: None,
            source_path: None,
        },
        &SCHEMA,
        None,
        MutationMode::Never,
        false,
        false,
        false,
        &HashMap::new(),
        &HashMap::new(),
    )
    .unwrap()
    .unwrap();

    assert!(
        operation.tool.description.is_some(),
        "tool description should be auto-generated when no explicit description"
    );
    assert_ne!(
        operation.tool.description.as_deref(),
        Some(""),
        "auto-generated description should not be empty"
    );
}

#[test]
fn explicit_description_overrides_comments() {
    let explicit_desc = "Override from manifest";
    let description_overrides =
        HashMap::from([("QueryName".to_string(), explicit_desc.to_string())]);
    let operation = from_raw(
        RawOperation {
            source_text: "# Comment-based description\nquery QueryName($id: ID) { id }"
                .to_string(),
            headers: None,
            variables: None,
            source_path: None,
        },
        &SCHEMA,
        None,
        MutationMode::Never,
        false,
        false,
        false,
        &HashMap::new(),
        &description_overrides,
    )
    .unwrap()
    .unwrap();

    assert_eq!(
        operation.tool.description.as_deref(),
        Some(explicit_desc),
        "explicit description should take priority over comment-based description"
    );
}

#[test]
fn operation_without_private_has_no_stripped_text() {
    let operation = from_raw(
            raw("query TestOp { id }".to_string()),
            &SCHEMA,
            None,
            MutationMode::All,
            false,
            false,
            true,
            &HashMap::new(),
            &HashMap::new(),
        )
        .unwrap()
        .unwrap();

    assert!(operation.stripped_source_text.is_none());
    assert!(operation.private_fields.is_none());
}

#[test]
fn operation_with_private_has_stripped_text() {
    let schema = Schema::parse(
        "type Query { fieldA: String, fieldB: String, fieldC: String }",
        "schema.graphql",
    )
    .unwrap()
    .validate()
    .unwrap();

    let operation = from_raw_with(
        private_facts(&["fieldB"], "query TestOp { fieldA fieldB fieldC }"),
        raw(
        "query TestOp { fieldA fieldB @private fieldC }".to_string()),
        &schema,
        None,
        MutationMode::All,
        false,
        false,
        true,
        &HashMap::new(),
        &HashMap::new(),
    )
    .unwrap()
    .unwrap();

    assert!(operation.stripped_source_text.is_some());
    assert!(operation.private_fields.is_some());
}

#[test]
fn stripped_text_does_not_contain_private_directive() {
    let schema = Schema::parse(
        "type Query { fieldA: String, fieldB: String, fieldC: String }",
        "schema.graphql",
    )
    .unwrap()
    .validate()
    .unwrap();

    let operation = from_raw_with(
        private_facts(&["fieldB"], "query TestOp { fieldA fieldB fieldC }"),
        raw(
        "query TestOp { fieldA fieldB @private fieldC }".to_string()),
        &schema,
        None,
        MutationMode::All,
        false,
        false,
        true,
        &HashMap::new(),
        &HashMap::new(),
    )
    .unwrap()
    .unwrap();

    let stripped = operation.stripped_source_text.unwrap();
    assert!(!stripped.contains("@private"));
    assert!(stripped.contains("fieldB"));
}

#[test]
fn operation_method_returns_stripped_text_when_private() {
    let schema = Schema::parse(
        "type Query { fieldA: String, fieldB: String }",
        "schema.graphql",
    )
    .unwrap()
    .validate()
    .unwrap();

    let operation =
        from_raw_with(
        private_facts(&["fieldB"], "query TestOp { fieldA fieldB }"), raw("query TestOp { fieldA fieldB @private }".to_string()),
                &schema,
                None,
                MutationMode::All,
                false,
                false,
                true,
                &HashMap::new(),
                &HashMap::new(),
            )
            .unwrap()
            .unwrap();

    let details = operation.operation(Value::Null).unwrap();
    assert!(!details.query.contains("@private"));
}

#[test]
fn operation_method_returns_original_text_when_no_private() {
    let operation = from_raw(
            raw("query TestOp { id }".to_string()),
            &SCHEMA,
            None,
            MutationMode::All,
            false,
            false,
            true,
            &HashMap::new(),
            &HashMap::new(),
        )
        .unwrap()
        .unwrap();

    let details = operation.operation(Value::Null).unwrap();
    assert_eq!(details.query, "query TestOp { id }");
}

#[test]
fn stripped_text_includes_fragment_definitions() {
    let schema = Schema::parse(
        r#"
            type Query { user: User }
            type User { name: String, email: String }
            "#,
        "schema.graphql",
    )
    .unwrap()
    .validate()
    .unwrap();

    let source = r#"
            query GetUser { user { ...UserFields } }
            fragment UserFields on User { name email @private }
        "#;

    let operation = from_raw_with(
        private_facts(&["user", "email"], "query GetUser { user { ...UserFields } } fragment UserFields on User { name email }"), raw(source.to_string()),
            &schema,
            None,
            MutationMode::All,
            false,
            false,
            true,
            &HashMap::new(),
            &HashMap::new(),
        )
        .unwrap()
        .unwrap();

    let stripped = operation.stripped_source_text.unwrap();
    assert!(
        stripped.contains("fragment UserFields"),
        "stripped text should include fragment definitions, got: {stripped}"
    );
}

#[test]
fn annotation_overrides_merge_with_auto_detected_for_query() {
    let overrides = HashMap::from([(
        "GetId".to_string(),
        AnnotationOverrides {
            idempotent_hint: Some(true),
            open_world_hint: Some(false),
            ..Default::default()
        },
    )]);
    let operation = from_raw(
        RawOperation {
            source_text: "query GetId { id }".to_string(),
            headers: None,
            variables: None,
            source_path: None,
        },
        &SCHEMA,
        None,
        MutationMode::Never,
        false,
        false,
        false,
        &overrides,
        &HashMap::new(),
    )
    .unwrap()
    .unwrap();

    let ann = operation.tool.annotations.as_ref().unwrap();
    assert_eq!(ann.read_only_hint, Some(true), "query auto-detected");
    assert_eq!(ann.destructive_hint, Some(false), "query auto-detected");
    assert_eq!(ann.idempotent_hint, Some(true), "user override applied");
    assert_eq!(ann.open_world_hint, Some(false), "user override applied");
    assert_eq!(ann.title, None, "not overridden");
}

#[test]
fn annotation_overrides_can_flip_auto_detected_hints() {
    let overrides = HashMap::from([(
        "GetId".to_string(),
        AnnotationOverrides {
            read_only_hint: Some(false),
            destructive_hint: Some(true),
            ..Default::default()
        },
    )]);
    let operation = from_raw(
        RawOperation {
            source_text: "query GetId { id }".to_string(),
            headers: None,
            variables: None,
            source_path: None,
        },
        &SCHEMA,
        None,
        MutationMode::Never,
        false,
        false,
        false,
        &overrides,
        &HashMap::new(),
    )
    .unwrap()
    .unwrap();

    let ann = operation.tool.annotations.as_ref().unwrap();
    assert_eq!(ann.read_only_hint, Some(false), "overridden from true");
    assert_eq!(ann.destructive_hint, Some(true), "overridden from false");
}

#[test]
fn annotation_overrides_set_title() {
    let overrides = HashMap::from([(
        "GetId".to_string(),
        AnnotationOverrides {
            title: Some("My Tool Title".to_string()),
            ..Default::default()
        },
    )]);
    let operation = from_raw(
        RawOperation {
            source_text: "query GetId { id }".to_string(),
            headers: None,
            variables: None,
            source_path: None,
        },
        &SCHEMA,
        None,
        MutationMode::Never,
        false,
        false,
        false,
        &overrides,
        &HashMap::new(),
    )
    .unwrap()
    .unwrap();

    let ann = operation.tool.annotations.as_ref().unwrap();
    assert_eq!(ann.title.as_deref(), Some("My Tool Title"));
}

#[test]
fn no_annotation_overrides_keeps_auto_detected() {
    let operation = from_raw(
        RawOperation {
            source_text: "query GetId { id }".to_string(),
            headers: None,
            variables: None,
            source_path: None,
        },
        &SCHEMA,
        None,
        MutationMode::Never,
        false,
        false,
        false,
        &HashMap::new(),
        &HashMap::new(),
    )
    .unwrap()
    .unwrap();

    let ann = operation.tool.annotations.as_ref().unwrap();
    assert_eq!(ann.read_only_hint, Some(true));
    assert_eq!(ann.destructive_hint, Some(false));
    assert_eq!(ann.idempotent_hint, Some(true), "queries are idempotent");
    assert_eq!(
        ann.open_world_hint,
        Some(true),
        "operations hit external API"
    );
    assert_eq!(ann.title, None);
}
