//! The tool that tells of the types of a schema.

use apollo_mcp_server::graphql::{ExtendedType, GraphqlSchema, ObjectType};
use apollo_mcp_server::introspect::{
    default_depth, tool_description, Input, Introspect, INTROSPECT_TOOL_NAME,
};
use apollo_mcp_server::json::Object;
use apollo_mcp_server::shaken::{DepthLimit, ShakenDirective, ShakenSchema, ShakenType, TypeKind};
use apollo_mcp_server::string_map::StringMap;

fn introspect(query: Option<&str>, mutation: Option<&str>, minify: bool) -> Introspect {
    Introspect::new(
        query.map(str::to_string),
        mutation.map(str::to_string),
        minify,
        None,
        Object::new(),
    )
}

fn schema(subscription: Option<&str>) -> GraphqlSchema {
    let mut types = StringMap::new();
    for name in ["Query", "Mutation", "Subscription", "User"] {
        types.insert(
            name.to_string(),
            ExtendedType::Object(ObjectType { fields: vec![] }),
        );
    }
    GraphqlSchema {
        types,
        query: Some("Query".to_string()),
        mutation: Some("Mutation".to_string()),
        subscription: subscription.map(str::to_string),
    }
}

fn object(name: &str) -> ShakenType {
    ShakenType {
        name: name.to_string(),
        kind: TypeKind::Object,
        built_in: false,
        sdl: format!("type {name} {{ id: ID }}"),
        minified: format!("T:{name}:id:d"),
    }
}

fn directive(sdl: &str, built_in: bool) -> ShakenDirective {
    ShakenDirective {
        built_in,
        sdl: sdl.to_string(),
    }
}

fn asked(name: &str) -> Input {
    Input {
        name: name.to_string(),
        depth: default_depth(),
    }
}

#[test]
fn introspect_tool_description_is_not_minified() {
    let description = introspect(None, None, false).tool.description.unwrap();

    assert!(description.contains("Get information about a given GraphQL type defined in the schema"));
    assert!(description.contains("Instructions: Use this tool to explore the schema"));
    // Should not contain minification legend
    assert!(!description.contains("T=type,I=input"));
    // Should mention conditional search tool usage
    assert!(description.contains("If the search tool is also available"));
}

#[test]
fn introspect_tool_description_is_minified_with_an_appropriate_legend() {
    let description = introspect(None, None, true).tool.description.unwrap();

    // Should contain minification legend
    assert!(description.contains("T=type,I=input,E=enum,U=union,F=interface"));
    assert!(description.contains("s=String,i=Int,f=Float,b=Boolean,d=ID"));
}

#[test]
fn introspect_query_depth_1_returns_fields() {
    let shaken = ShakenSchema {
        directives: vec![],
        types: vec![object("Query")],
    };
    let content = introspect(Some("Query"), Some("Mutation"), false)
        .execute(&asked("Query"), &schema(None), &shaken)
        .join("\n");
    assert!(content.contains("type Query"));
}

#[test]
fn introspect_mutation_depth_1_returns_fields() {
    let shaken = ShakenSchema {
        directives: vec![],
        types: vec![object("Mutation")],
    };
    let content = introspect(Some("Query"), Some("Mutation"), false)
        .execute(&asked("Mutation"), &schema(None), &shaken)
        .join("\n");
    assert!(content.contains("type Mutation"));
}

#[test]
fn introspect_mutation_depth_1_with_mutations_disabled() {
    let shaken = ShakenSchema {
        directives: vec![],
        types: vec![object("Mutation")],
    };
    let content = introspect(Some("Query"), None, false)
        .execute(&asked("Mutation"), &schema(None), &shaken)
        .join("\n");
    assert!(content.contains("type Mutation"));
}

#[test]
fn builtin_directive_definitions_are_not_dumped() {
    let shaken = ShakenSchema {
        directives: vec![directive("directive @deprecated on FIELD_DEFINITION", true)],
        types: vec![object("Query")],
    };
    let content = introspect(Some("Query"), None, false).execute(
        &asked("Query"),
        &schema(None),
        &shaken,
    );
    assert_eq!(content, vec!["type Query { id: ID }"]);
}

#[test]
fn regular_serialization_is_deterministic() {
    let shaken = ShakenSchema {
        directives: vec![directive("directive @auth(role: String!) on FIELD_DEFINITION", false)],
        types: vec![object("Query"), object("User")],
    };
    let tool = introspect(Some("Query"), None, false);
    let first = tool.execute(&asked("Query"), &schema(None), &shaken);
    let second = tool.clone().execute(&asked("Query"), &schema(None), &shaken);
    assert_eq!(first, second);
}

#[test]
fn minify_returns_standard_sdl_directive_definition() {
    let shaken = ShakenSchema {
        directives: vec![directive("directive @auth(role: String!) on FIELD_DEFINITION", false)],
        types: vec![object("Query")],
    };
    let content = introspect(Some("Query"), None, true).execute(
        &asked("Query"),
        &schema(None),
        &shaken,
    );
    assert_eq!(
        content,
        vec![
            "directive @auth(role: String!) on FIELD_DEFINITION",
            "T:Query:id:d"
        ]
    );
}

#[test]
fn description_names_the_root_types() {
    assert_eq!(
        tool_description(Some("Q"), None, false),
        "Get information about a given GraphQL type defined in the schema. Instructions: Use this tool to explore the schema by providing specific type names. Start with the root query (Q) or mutation (Mutation) types to discover available fields. If the search tool is also available, use this tool first to get the fields, then use the search tool with relevant field return types and argument input types (ignore default GraphQL scalars) as search terms."
    );
    assert_eq!(
        tool_description(None, Some("M"), true),
        "Get GraphQL type information - T=type,I=input,E=enum,U=union,F=interface;s=String,i=Int,f=Float,b=Boolean,d=ID;@D=deprecated;!=required,[]=list,<>=implements;"
    );
}

#[test]
fn description_can_be_replaced() {
    let mut input_schema = Object::new();
    input_schema.insert("type".to_string(), serde_json::Value::from("object"));
    let tool = Introspect::new(
        None,
        None,
        false,
        Some("with a hint".to_string()),
        input_schema.clone(),
    )
    .tool;
    assert_eq!(tool.name, INTROSPECT_TOOL_NAME);
    assert_eq!(tool.name, "introspect");
    assert_eq!(tool.description.as_deref(), Some("with a hint"));
    assert_eq!(tool.input_schema, input_schema);
    assert!(tool.output_schema.is_none());
    assert!(tool.annotations.is_none());
}

#[test]
fn depth_defaults_to_one() {
    assert_eq!(default_depth(), 1);
    assert_eq!(asked("Query").depth_limit(), DepthLimit::Limited(1));
    let everything = Input {
        name: "Query".to_string(),
        depth: 0,
    };
    assert_eq!(everything.depth_limit(), DepthLimit::Unlimited);
}

#[test]
fn unknown_types_are_answered_with_nothing() {
    let shaken = ShakenSchema {
        directives: vec![directive("directive @auth on OBJECT", false)],
        types: vec![object("Query")],
    };
    let content = introspect(Some("Query"), None, false).execute(
        &asked("Missing"),
        &schema(None),
        &shaken,
    );
    assert!(content.is_empty());
}

#[test]
fn root_types_and_built_in_types_are_hidden() {
    let mut built_in = object("String");
    built_in.built_in = true;
    let shaken = ShakenSchema {
        directives: vec![],
        types: vec![
            object("Mutation"),
            object("Subscription"),
            built_in,
            object("User"),
        ],
    };
    let user = "type User { id: ID }".to_string();
    let mutation = "type Mutation { id: ID }".to_string();
    assert_eq!(
        introspect(Some("Query"), None, false).execute(
            &asked("User"),
            &schema(Some("Subscription")),
            &shaken
        ),
        vec![user.clone()]
    );
    assert_eq!(
        introspect(Some("Query"), Some("Mutation"), false).execute(
            &asked("User"),
            &schema(Some("Subscription")),
            &shaken
        ),
        vec![mutation, user]
    );
}
