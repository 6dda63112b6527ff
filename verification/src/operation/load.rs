//! Making a tool of an operation.

use crate::document::{
    definition_views, parsed, Definition, DefinitionView, OperationDef, OperationView,
    VariableView, SOURCE_LIMIT,
};
use crate::graphql::{GraphqlSchema, OperationType};
use crate::json::{self, Json, Object, Ordered, Parts};
use crate::notice::{Notice, NoticeLevel, NoticeView};
use crate::operation::comments::{
    comments_fit, do_comments_fit, text_map, variable_comments, variable_description_overrides,
};
use crate::operation::description::{operation_description, tool_description};
use crate::operation::error::{OperationError, OperationErrorView};
use crate::operation::input_schema::{
    ensure_properties_exists, get_json_schema, open_variables, texts_map, variables_schema,
    variables_schema_layout, with_properties, Docs,
};
use crate::operation::select::{
    choice_view, choose_operation, chosen, definitions_fit, operation_name, read_definitions,
    read_document, Choice, ChoiceView, LogLevels,
};
use crate::operation::{
    tree_view, Analysis, AnnotationOverrides, MutationMode, Operation, RawOperation,
};
use crate::schema_walker::layout::Entries;
use crate::schema_walker::walk::{scalars_of, CustomScalarMap};
use crate::string_map::StringMap;
use crate::text::{byte_len, text_of};
use crate::tool::{Tool, ToolAnnotations};
use vstd::prelude::*;

verus! {

/// What is set for the tools that are made.
pub struct ToolOptions {
    pub disable_type_description: bool,
    pub disable_schema_description: bool,
    pub enable_output_schema: bool,
}

/// The hint that an operator sets, else the given one.
pub open spec fn hint(set: Option<bool>, automatic: Option<bool>) -> Option<bool> {
    match set {
        Some(value) => Some(value),
        None => automatic,
    }
}

/// The hints for an operation: whatever is no mutation is read-only and idempotent, a
/// mutation is destructive, and each talks to the outside world. What an operator sets
/// comes first.
pub open spec fn annotated(
    annotations: ToolAnnotations,
    operation_type: OperationType,
    overrides: Option<AnnotationOverrides>,
) -> bool {
    let is_query = operation_type != OperationType::Mutation;
    let idempotent = if is_query {
        Some(true)
    } else {
        None
    };
    match overrides {
        Some(set) => {
            &&& text_of(annotations.title) == text_of(set.title)
            &&& annotations.read_only_hint == hint(set.read_only_hint, Some(is_query))
            &&& annotations.destructive_hint == hint(set.destructive_hint, Some(!is_query))
            &&& annotations.idempotent_hint == hint(set.idempotent_hint, idempotent)
            &&& annotations.open_world_hint == hint(set.open_world_hint, Some(true))
        },
        None => {
            &&& annotations.title is None
            &&& annotations.read_only_hint == Some(is_query)
            &&& annotations.destructive_hint == Some(!is_query)
            &&& annotations.idempotent_hint == idempotent
            &&& annotations.open_world_hint == Some(true)
        },
    }
}

/// The value of a name, where it has one.
pub open spec fn lookup<V>(map: Map<Seq<char>, V>, name: Seq<char>) -> Option<V> {
    if map.contains_key(name) {
        Some(map[name])
    } else {
        None
    }
}

impl AnnotationOverrides {
    /// Sets the hints that are set here, and leaves the others.
    pub fn apply_to(&self, annotations: &mut ToolAnnotations)
        ensures
            text_of(final(annotations).title) == match self.title {
                Some(title) => Some(title@),
                None => text_of(old(annotations).title),
            },
            final(annotations).read_only_hint == hint(
                self.read_only_hint,
                old(annotations).read_only_hint,
            ),
            final(annotations).destructive_hint == hint(
                self.destructive_hint,
                old(annotations).destructive_hint,
            ),
            final(annotations).idempotent_hint == hint(
                self.idempotent_hint,
                old(annotations).idempotent_hint,
            ),
            final(annotations).open_world_hint == hint(
                self.open_world_hint,
                old(annotations).open_world_hint,
            ),
    {
        if let Some(title) = &self.title {
            annotations.title = Some(title.clone());
        }
        if self.read_only_hint.is_some() {
            annotations.read_only_hint = self.read_only_hint;
        }
        if self.destructive_hint.is_some() {
            annotations.destructive_hint = self.destructive_hint;
        }
        if self.idempotent_hint.is_some() {
            annotations.idempotent_hint = self.idempotent_hint;
        }
        if self.open_world_hint.is_some() {
            annotations.open_world_hint = self.open_world_hint;
        }
    }
}

/// The hints for an operation.
pub fn annotations_for(
    operation_type: OperationType,
    overrides: Option<&AnnotationOverrides>,
) -> (annotations: ToolAnnotations)
    ensures
        annotated(
            annotations,
            operation_type,
            match overrides {
                Some(set) => Some(*set),
                None => None,
            },
        ),
{
    let is_query: bool = operation_type != OperationType::Mutation;
    let mut annotations = ToolAnnotations {
        title: None,
        read_only_hint: Some(is_query),
        destructive_hint: Some(!is_query),
        idempotent_hint: if is_query {
            Some(true)
        } else {
            None
        },
        open_world_hint: Some(true),
    };
    if let Some(set) = overrides {
        set.apply_to(&mut annotations);
    }
    annotations
}

/// Whether the schema has the root type for a kind of operation.
pub open spec fn has_root(schema: GraphqlSchema, operation_type: OperationType) -> bool {
    match schema.root(operation_type) {
        Some(root) => schema.types@.contains_key(root@),
        None => false,
    }
}

/// The output schema of a tool: the schema of the response, where that is an object, output
/// schemas are enabled and the schema has the root type. Its members stay in order.
pub open spec fn output_entries(
    schema: GraphqlSchema,
    operation_type: OperationType,
    enabled: bool,
    selection_schema: Option<serde_json::Value>,
) -> Option<Entries> {
    match selection_schema {
        Some(value) => if enabled && has_root(schema, operation_type) && json::ordered(
            value,
        ) is Object {
            Some(json::ordered(value)->Object_0)
        } else {
            None
        },
        None => None,
    }
}

/// The output schema of a tool.
fn output_schema(
    schema: &GraphqlSchema,
    operation_type: OperationType,
    enabled: bool,
    selection_schema: Option<serde_json::Value>,
) -> (r: Option<Object>)
    ensures
        json::object_entries(r) == output_entries(
            *schema,
            operation_type,
            enabled,
            selection_schema,
        ),
{
    if !enabled {
        return None;
    }
    let root = match schema.root_operation(operation_type) {
        Some(root) => root,
        None => return None,
    };
    if !schema.types.contains_key(root.as_str()) {
        return None;
    }
    match selection_schema {
        Some(value) => match json::into_parts(value) {
            Parts::Object(object) => Some(object),
            _ => None,
        },
        None => None,
    }
}

/// What is known of the variables of an operation besides their types.
pub open spec fn tool_docs(
    operation: OperationView,
    raw: RawOperation,
    analysis: Analysis,
) -> Docs {
    Docs {
        comments: variable_comments(raw.source_text@, operation),
        arguments: texts_map(analysis.argument_descriptions@),
    }
}

/// The variables of an operation that are left to the caller.
pub open spec fn offered_variables(operation: OperationView, raw: RawOperation) -> Seq<
    VariableView,
> {
    open_variables(
        operation.variables,
        match raw.variables {
            Some(variables) => json::members(variables),
            None => json::no_members(),
        },
    )
}

/// Whether the tool is the one that is made of a named operation. Its input schema says what
/// the schema of the variables says, and stands as `schemars` writes that schema.
pub open spec fn is_tool_of(
    tool: Tool,
    name: Seq<char>,
    operation: OperationView,
    comments: Option<Seq<char>>,
    raw: RawOperation,
    schema: GraphqlSchema,
    scalars: Option<&CustomScalarMap>,
    options: ToolOptions,
    annotation_overrides: Map<Seq<char>, AnnotationOverrides>,
    description_overrides: Map<Seq<char>, Seq<char>>,
    analysis: Analysis,
) -> bool {
    &&& tool.name@ == name
    &&& tool.description is Some
    &&& tool.description->0@ == match lookup(description_overrides, name) {
        Some(description) => description,
        None => operation_description(
            comments,
            analysis.shaken_types@,
            schema,
            operation,
            options.disable_type_description,
            options.disable_schema_description,
        ),
    }
    &&& json::members(tool.input_schema) == variables_schema(
        schema.types@,
        scalars_of(scalars),
        tool_docs(operation, raw, analysis),
        offered_variables(operation, raw),
    )
    &&& Ordered::Object(json::ordered_members(tool.input_schema)) == json::arranged(
        Ordered::Object(
            variables_schema_layout(
                schema.types@,
                scalars_of(scalars),
                tool_docs(operation, raw, analysis),
                offered_variables(operation, raw),
            ),
        ),
    )
    &&& json::object_entries(tool.output_schema) == output_entries(
        schema,
        operation.operation_type,
        options.enable_output_schema,
        analysis.selection_schema,
    )
    &&& tool.annotations is Some
    &&& annotated(
        tool.annotations->0,
        operation.operation_type,
        lookup(annotation_overrides, name),
    )
}

/// Whether the private fields, and the text without their marks, are kept where there are
/// private fields and only there.
pub open spec fn keeps_private_fields(operation: Operation, analysis: Analysis) -> bool {
    if analysis.private_fields@.len() > 0 {
        &&& tree_view(operation.private_fields) == Some(analysis.private_fields@)
        &&& text_of(operation.stripped_source_text) == Some(analysis.stripped_source_text@)
    } else {
        &&& operation.private_fields is None
        &&& operation.stripped_source_text is None
    }
}

/// The message where a comment is not found before its variable.
pub open spec fn misplaced_variable() -> OperationErrorView {
    OperationErrorView::Internal("A variable is not after the opening parenthesis"@)
}

/// The notice of an operation without a name.
pub open spec fn unnamed_notice(
    operation: OperationView,
    source_path: Option<Seq<char>>,
) -> NoticeView {
    NoticeView {
        level: NoticeLevel::Warn,
        text: match source_path {
            Some(path) => "Skipping unnamed operation in "@ + path + ": "@ + operation.text,
            None => "Skipping unnamed operation: "@ + operation.text,
        },
    }
}

/// What is done with the operation of a document that is to become a tool: it is skipped as
/// for the choice of operations, and also where it has no name.
pub open spec fn loading(
    source: Seq<char>,
    definitions: Seq<DefinitionView>,
    allow_mutations: bool,
    source_path: Option<Seq<char>>,
    log: LogLevels,
) -> Result<ChoiceView, OperationErrorView> {
    match chosen(source, definitions, allow_mutations, source_path, log) {
        Ok(ChoiceView::Take(operation, comments)) => if operation.name is None {
            Ok(ChoiceView::Skip(Some(unnamed_notice(operation, source_path))))
        } else if comments_fit(source, operation) {
            Ok(ChoiceView::Take(operation, comments))
        } else {
            Err(misplaced_variable())
        },
        other => other,
    }
}

/// What is done with a source text that is to become a tool, of which the parser says what it
/// holds.
pub open spec fn load_outcome(
    source: Seq<char>,
    definitions: Option<Seq<DefinitionView>>,
    allow_mutations: bool,
    source_path: Option<Seq<char>>,
    log: LogLevels,
) -> Result<ChoiceView, OperationErrorView> {
    match read_definitions(source, definitions, source_path) {
        Ok(definitions) => loading(source, definitions, allow_mutations, source_path, log),
        Err(error) => Err(error),
    }
}

/// Whether the operation is the one that is made of a named operation.
pub open spec fn is_made_of(
    made: Operation,
    operation: OperationView,
    comments: Option<Seq<char>>,
    raw: RawOperation,
    schema: GraphqlSchema,
    scalars: Option<&CustomScalarMap>,
    options: ToolOptions,
    annotation_overrides: Map<Seq<char>, AnnotationOverrides>,
    description_overrides: Map<Seq<char>, Seq<char>>,
    analysis: Analysis,
) -> bool {
    &&& operation.name is Some
    &&& made.operation_name@ == operation.name->0.text
    &&& made.inner == raw
    &&& is_tool_of(
        made.tool,
        operation.name->0.text,
        operation,
        comments,
        raw,
        schema,
        scalars,
        options,
        annotation_overrides,
        description_overrides,
        analysis,
    )
    &&& keeps_private_fields(made, analysis)
}

/// Whether the result is what loading an operation document gives.
pub open spec fn loads(
    r: Result<Option<Operation>, OperationError>,
    raw: RawOperation,
    schema: GraphqlSchema,
    scalars: Option<&CustomScalarMap>,
    mutation_mode: MutationMode,
    options: ToolOptions,
    annotation_overrides: Map<Seq<char>, AnnotationOverrides>,
    description_overrides: Map<Seq<char>, Seq<char>>,
    analysis: Analysis,
    log: LogLevels,
) -> bool {
    match load_outcome(
        raw.source_text@,
        parsed(raw.source_text@),
        mutation_mode != MutationMode::Never,
        text_of(raw.source_path),
        log,
    ) {
        Err(error) => r is Err && r->Err_0@ == error,
        Ok(ChoiceView::Skip(_)) => r == Ok::<Option<Operation>, OperationError>(None),
        Ok(ChoiceView::Take(operation, comments)) => {
            &&& r is Ok
            &&& r->Ok_0 is Some
            &&& is_made_of(
                r->Ok_0->0,
                operation,
                comments,
                raw,
                schema,
                scalars,
                options,
                annotation_overrides,
                description_overrides,
                analysis,
            )
        },
    }
}

/// Decides what is done with the operation of a document that is to become a tool. One that
/// is taken has a name, and the text before each of its variables can be looked at.
pub fn load_step(
    raw_operation: &RawOperation,
    definitions: Vec<Definition>,
    mutation_mode: MutationMode,
    log: LogLevels,
) -> (r: Result<Choice, OperationError>)
    requires
        definitions_fit(raw_operation.source_text@, definition_views(definitions@)),
    ensures
        choice_view(r) == loading(
            raw_operation.source_text@,
            definition_views(definitions@),
            mutation_mode != MutationMode::Never,
            text_of(raw_operation.source_path),
            log,
        ),
{
    let source_path = match &raw_operation.source_path {
        Some(path) => Some(path.clone()),
        None => None,
    };
    match choose_operation(
        raw_operation.source_text.as_str(),
        definitions,
        mutation_mode != MutationMode::Never,
        source_path,
        log,
    ) {
        Ok(Choice::Take(operation, comments)) => {
            if operation.name.is_none() {
                let mut text = String::new();
                match &raw_operation.source_path {
                    Some(path) => {
                        text.append("Skipping unnamed operation in ");
                        text.append(path.as_str());
                        text.append(": ");
                    },
                    None => {
                        text.append("Skipping unnamed operation: ");
                    },
                }
                text.append(operation.text.as_str());
                let ghost path = text_of(raw_operation.source_path);
                assert(text@ =~= unnamed_notice(operation@, path).text);
                return Ok(Choice::Skip(Some(Notice { level: NoticeLevel::Warn, text })));
            }
            if do_comments_fit(raw_operation.source_text.as_str(), &operation) {
                Ok(Choice::Take(operation, comments))
            } else {
                Err(
                    OperationError::Internal(
                        "A variable is not after the opening parenthesis".to_owned(),
                    ),
                )
            }
        },
        Ok(Choice::Skip(notice)) => Ok(Choice::Skip(notice)),
        Err(error) => Err(error),
    }
}

impl Operation {
    /// Makes a tool of an operation that has been taken. JSON values can always be written, so
    /// this does not fail.
    pub fn from_parsed(
        operation: &OperationDef,
        comments: Option<String>,
        raw_operation: RawOperation,
        graphql_schema: &GraphqlSchema,
        custom_scalar_map: Option<&CustomScalarMap>,
        options: ToolOptions,
        annotation_overrides: &StringMap<AnnotationOverrides>,
        description_overrides: &StringMap<String>,
        analysis: Analysis,
    ) -> (r: Result<Operation, OperationError>)
        requires
            operation.name is Some,
            comments_fit(raw_operation.source_text@, operation@),
        ensures
            r is Ok,
            is_made_of(
                r->Ok_0,
                operation@,
                text_of(comments),
                raw_operation,
                *graphql_schema,
                custom_scalar_map,
                options,
                annotation_overrides@,
                text_map(description_overrides@),
                analysis,
            ),
    {
        let name = match operation_name(operation, None) {
            Ok(name) => name,
            Err(error) => return Err(error),
        };
        let overrides = variable_description_overrides(
            raw_operation.source_text.as_str(),
            operation,
        );
        let description = match description_overrides.get(name.as_str()) {
            Some(description) => description.clone(),
            None => tool_description(
                comments,
                &analysis.shaken_types,
                graphql_schema,
                operation,
                options.disable_type_description,
                options.disable_schema_description,
            ),
        };
        let schema = get_json_schema(
            operation,
            &analysis.argument_descriptions,
            &overrides,
            graphql_schema,
            custom_scalar_map,
            raw_operation.variables.as_ref(),
        );
        let ghost members = json::members(schema);
        let mut value = match json::schema_to_value(schema) {
            Ok(value) => value,
            Err(error) => return Err(OperationError::Json(error)),
        };
        proof {
            json::lemma_json(value);
            lemma_has_properties(members);
        }
        ensure_properties_exists(&mut value);
        let input_schema = match json::into_parts(value) {
            Parts::Object(object) => object,
            _ => return Err(
                OperationError::Internal("Schemars should have returned an object".to_owned()),
            ),
        };
        let output_schema = output_schema(
            graphql_schema,
            operation.operation_type,
            options.enable_output_schema,
            analysis.selection_schema,
        );
        let has_private_fields = analysis.private_fields.has_private_fields();
        let (stripped_source_text, private_fields) = if has_private_fields {
            (Some(analysis.stripped_source_text), Some(analysis.private_fields))
        } else {
            (None, None)
        };
        let annotations = annotations_for(
            operation.operation_type,
            annotation_overrides.get(name.as_str()),
        );
        let tool = Tool {
            name: name.clone(),
            description: Some(description),
            input_schema,
            output_schema,
            annotations: Some(annotations),
        };
        Ok(
            Operation {
                tool,
                inner: raw_operation,
                operation_name: name,
                stripped_source_text,
                private_fields,
            },
        )
    }

    /// Makes a tool of an operation document. Nothing is made of a subscription, of a
    /// mutation where they are not allowed, and of a query or an allowed mutation without a
    /// name. A subscription or mutation that is left out is told of by its name, so one without
    /// a name is an error where that message is written.
    pub fn from_raw(
        raw_operation: RawOperation,
        graphql_schema: &GraphqlSchema,
        custom_scalar_map: Option<&CustomScalarMap>,
        mutation_mode: MutationMode,
        options: ToolOptions,
        annotation_overrides: &StringMap<AnnotationOverrides>,
        description_overrides: &StringMap<String>,
        analysis: Analysis,
        log: LogLevels,
    ) -> (r: Result<Option<Operation>, OperationError>)
        requires
            byte_len(raw_operation.source_text@) <= SOURCE_LIMIT,
        ensures
            loads(
                r,
                raw_operation,
                *graphql_schema,
                custom_scalar_map,
                mutation_mode,
                options,
                annotation_overrides@,
                text_map(description_overrides@),
                analysis,
                log,
            ),
    {
        let read = match read_document(
            raw_operation.source_text.as_str(),
            &raw_operation.source_path,
        ) {
            Ok(read) => read,
            Err(error) => return Err(error),
        };
        let (operation, comments) = match load_step(
            &raw_operation,
            read.definitions,
            mutation_mode,
            log,
        ) {
            Ok(Choice::Take(operation, comments)) => (operation, comments),
            Ok(Choice::Skip(_)) => return Ok(None),
            Err(error) => return Err(error),
        };
        match Operation::from_parsed(
            &operation,
            comments,
            raw_operation,
            graphql_schema,
            custom_scalar_map,
            options,
            annotation_overrides,
            description_overrides,
            analysis,
        ) {
            Ok(made) => Ok(Some(made)),
            Err(error) => Err(error),
        }
    }

    /// The operation as it was loaded.
    pub fn into_inner(self) -> (raw: RawOperation)
        ensures
            raw == self.inner,
    {
        self.inner
    }
}

impl AsRef<Tool> for Operation {
    /// The tool.
    fn as_ref(&self) -> (tool: &Tool)
        ensures
            *tool == self.tool,
    {
        &self.tool
    }
}

impl From<Operation> for Tool {
    /// The tool.
    fn from(value: Operation) -> (tool: Tool) {
        value.tool
    }
}

impl vstd::std_specs::convert::FromSpecImpl<Operation> for Tool {
    open spec fn obeys_from_spec() -> bool {
        true
    }

    open spec fn from_spec(value: Operation) -> Tool {
        value.tool
    }
}

/// The schema of the variables is that of an object with properties.
proof fn lemma_has_properties(members: Map<Seq<char>, Json>)
    requires
        exists|types, scalars, docs, variables| #[trigger]
            variables_schema(types, scalars, docs, variables) == members,
    ensures
        with_properties(Json::Object(members)) == Json::Object(members),
{
    reveal_strlit("type");
    reveal_strlit("properties");
    reveal_strlit("required");
    reveal_strlit("definitions");
    assert("type"@.len() == 4 && "properties"@.len() == 10);
    assert("required"@.len() == 8 && "definitions"@.len() == 11);
}

/// What goes wrong when the length of a tool is counted.
#[derive(Debug)]
pub enum LengthError {
    /// JSON could not be written.
    Json(serde_json::Error),
    /// The length is too large to be told.
    TooLong,
}

/// The number of bytes of a tool: of its name, its description and its schemas as they are
/// printed.
pub open spec fn tool_length(tool: Tool) -> nat {
    byte_len(tool.name@) + (match tool.description {
        Some(description) => byte_len(description@),
        None => 0,
    }) + json::pretty_len(Json::Object(json::members(tool.input_schema))) + (
    match tool.output_schema {
        Some(schema) => json::pretty_len(Json::Object(json::members(schema))),
        None => 0,
    })
}

/// The number of bytes of a tool.
pub fn tool_character_length(tool: &Tool) -> (r: Result<usize, LengthError>)
    ensures
        match r {
            Ok(length) => length == tool_length(*tool),
            Err(LengthError::TooLong) => tool_length(*tool) > usize::MAX,
            Err(LengthError::Json(_)) => false,
        },
{
    let input: usize = match json::to_string_pretty(&tool.input_schema) {
        Ok(printed) => printed.as_str().as_bytes().len(),
        Err(error) => return Err(LengthError::Json(error)),
    };
    let output: usize = match &tool.output_schema {
        Some(schema) => match json::to_string_pretty(schema) {
            Ok(printed) => printed.as_str().as_bytes().len(),
            Err(error) => return Err(LengthError::Json(error)),
        },
        None => 0,
    };
    let description: usize = match &tool.description {
        Some(description) => description.as_str().as_bytes().len(),
        None => 0,
    };
    let name: usize = tool.name.as_str().as_bytes().len();
    let length = match name.checked_add(description) {
        Some(sum) => match sum.checked_add(input) {
            Some(sum) => sum.checked_add(output),
            None => None,
        },
        None => None,
    };
    match length {
        Some(length) => Ok(length),
        None => Err(LengthError::TooLong),
    }
}

/// The same options with output schemas switched on or off.
pub open spec fn with_output_schema(options: ToolOptions, enabled: bool) -> ToolOptions {
    ToolOptions {
        disable_type_description: options.disable_type_description,
        disable_schema_description: options.disable_schema_description,
        enable_output_schema: enabled,
    }
}

/// Switching output schemas on changes nothing but the output schema of the tool: two loads
/// that differ in it alone fail alike, skip alike, or make operations that say the same. Off,
/// there is no output schema; on, there is one wherever the schema has the root type and the
/// schema of the response is an object.
pub proof fn law_output_schema_changes_nothing_else(
    off: Result<Option<Operation>, OperationError>,
    on: Result<Option<Operation>, OperationError>,
    raw: RawOperation,
    schema: GraphqlSchema,
    scalars: Option<&CustomScalarMap>,
    mutation_mode: MutationMode,
    options: ToolOptions,
    annotation_overrides: Map<Seq<char>, AnnotationOverrides>,
    description_overrides: Map<Seq<char>, Seq<char>>,
    analysis: Analysis,
    log: LogLevels,
)
    requires
        loads(
            off,
            raw,
            schema,
            scalars,
            mutation_mode,
            with_output_schema(options, false),
            annotation_overrides,
            description_overrides,
            analysis,
            log,
        ),
        loads(
            on,
            raw,
            schema,
            scalars,
            mutation_mode,
            with_output_schema(options, true),
            annotation_overrides,
            description_overrides,
            analysis,
            log,
        ),
    ensures
        match (off, on) {
            (Err(a), Err(b)) => a@ == b@,
            (Ok(None), Ok(None)) => true,
            (Ok(Some(a)), Ok(Some(b))) => {
                &&& a.tool.name@ == b.tool.name@
                &&& text_of(a.tool.description) == text_of(b.tool.description)
                &&& json::ordered_members(a.tool.input_schema) == json::ordered_members(
                    b.tool.input_schema,
                )
                &&& a.tool.annotations is Some && b.tool.annotations is Some
                &&& a.tool.annotations->0.same(b.tool.annotations->0)
                &&& a.inner == b.inner
                &&& a.operation_name@ == b.operation_name@
                &&& text_of(a.stripped_source_text) == text_of(b.stripped_source_text)
                &&& tree_view(a.private_fields) == tree_view(b.private_fields)
                &&& a.tool.output_schema is None
                &&& b.tool.output_schema is Some <==> {
                    &&& analysis.selection_schema is Some
                    &&& json::ordered(analysis.selection_schema->0) is Object
                    &&& has_root(
                        schema,
                        load_outcome(
                            raw.source_text@,
                            parsed(raw.source_text@),
                            mutation_mode != MutationMode::Never,
                            text_of(raw.source_path),
                            log,
                        )->Ok_0->Take_0.operation_type,
                    )
                }
            },
            _ => false,
        },
{
}

/// The text without the marks of private fields is kept if and only if private fields are,
/// which is if and only if the operation has some. The operation as it was loaded is kept
/// unchanged, marks included.
pub proof fn law_private_text_and_fields_go_together(
    made: Operation,
    raw: RawOperation,
    schema: GraphqlSchema,
    scalars: Option<&CustomScalarMap>,
    mutation_mode: MutationMode,
    options: ToolOptions,
    annotation_overrides: Map<Seq<char>, AnnotationOverrides>,
    description_overrides: Map<Seq<char>, Seq<char>>,
    analysis: Analysis,
    log: LogLevels,
)
    requires
        loads(
            Ok(Some(made)),
            raw,
            schema,
            scalars,
            mutation_mode,
            options,
            annotation_overrides,
            description_overrides,
            analysis,
            log,
        ),
    ensures
        made.stripped_source_text is Some <==> made.private_fields is Some,
        made.private_fields is Some <==> analysis.private_fields@.len() > 0,
        made.inner == raw,
{
}

/// What is chosen is loaded if it has a name and the text before each of its variables can be
/// looked at. One without a name is skipped, with a warning that shows the operation and where it
/// comes from. What is skipped stays skipped, and errors stay.
pub proof fn law_named_operations_are_loaded(
    source: Seq<char>,
    definitions: Seq<DefinitionView>,
    allow_mutations: bool,
    source_path: Option<Seq<char>>,
    log: LogLevels,
)
    ensures
        ({
            let choice = chosen(source, definitions, allow_mutations, source_path, log);
            let result = loading(source, definitions, allow_mutations, source_path, log);
            match choice {
                Ok(ChoiceView::Take(operation, comments)) => {
                    &&& operation.name is Some && comments_fit(source, operation) ==> result
                        == choice
                    &&& operation.name is Some && !comments_fit(source, operation) ==> result
                        is Err && result->Err_0 is Internal
                    &&& operation.name is None ==> result is Ok && result->Ok_0 is Skip
                        && result->Ok_0->Skip_0 is Some && result->Ok_0->Skip_0->0.level
                        == NoticeLevel::Warn && result->Ok_0->Skip_0->0.text == if source_path
                        is Some {
                        "Skipping unnamed operation in "@ + source_path->0 + ": "@ + operation.text
                    } else {
                        "Skipping unnamed operation: "@ + operation.text
                    }
                },
                _ => result == choice,
            }
        }),
{
}

} // verus!
