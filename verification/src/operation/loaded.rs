//! What holds of operations that have been loaded.

use crate::document::{parsed, DefinitionView, OperationView, Span, VariableView};
use crate::graphql::{GraphqlSchema, OperationType};
use crate::json::{self, Json, Ordered};
use crate::operation::comments::{comment_words, comments_fit, variable_comments};
use crate::operation::description::operation_description;
use crate::operation::error::{OperationError, OperationErrorView};
use crate::operation::headers::headers_in;
use crate::operation::input_schema::{
    law_properties_are_the_variables, law_required_are_the_non_null_variables, open_variables,
    properties_in, required_in, variables_schema, variables_schema_layout, Docs,
};
use crate::operation::load::{
    annotated, hint, is_made_of, loads, tool_docs, tool_length, ToolOptions,
};
use crate::operation::select::{
    definitions_fit, is_only_operation, lemma_only_operation, text_before, LogLevels,
};
use crate::operation::{
    tree_view, Analysis, AnnotationOverrides, MutationMode, Operation, RawOperation,
};
use crate::schema_walker::definitions::Scalars;
use crate::schema_walker::reachable::Types;
use crate::schema_walker::walk::{scalars_of, CustomScalarMap};
use crate::text::{text_of, views};
use crate::tool::{Tool, ToolAnnotations};
use vstd::prelude::*;
use vstd::utf8::encode_utf8;

verus! {

/// A hint that is set counts, and only without it the one that was there.
pub proof fn law_hints_that_are_set_count(value: bool, automatic: Option<bool>)
    ensures
        hint(Some(value), automatic) == Some(value),
        hint(None, automatic) == automatic,
{
}

/// Each hint that an operator sets is the hint of the tool, for every kind of operation.
pub proof fn law_operators_decide_about_hints(
    annotations: ToolAnnotations,
    operation_type: OperationType,
    set: AnnotationOverrides,
    value: bool,
)
    requires
        annotated(annotations, operation_type, Some(set)),
    ensures
        set.read_only_hint == Some(value) ==> annotations.read_only_hint == Some(value),
        set.destructive_hint == Some(value) ==> annotations.destructive_hint == Some(value),
        set.idempotent_hint == Some(value) ==> annotations.idempotent_hint == Some(value),
        set.open_world_hint == Some(value) ==> annotations.open_world_hint == Some(value),
        set.title is Some ==> annotations.title is Some && annotations.title->0@ == set.title->0@,
{
}

/// A hint that no operator sets follows from the kind of the operation: queries and subscriptions
/// are read-only, not destructive and idempotent; mutations are destructive, not read-only, and
/// nothing is said of whether they are idempotent. Each talks to the outside world.
pub proof fn law_hints_follow_from_the_kind(
    annotations: ToolAnnotations,
    operation_type: OperationType,
    overrides: Option<AnnotationOverrides>,
)
    requires
        annotated(annotations, operation_type, overrides),
    ensures
        overrides is None || overrides->0.read_only_hint is None ==> annotations.read_only_hint
            == match operation_type {
            OperationType::Query => Some(true),
            OperationType::Mutation => Some(false),
            OperationType::Subscription => Some(true),
        },
        overrides is None || overrides->0.destructive_hint is None ==> annotations.destructive_hint
            == match operation_type {
            OperationType::Query => Some(false),
            OperationType::Mutation => Some(true),
            OperationType::Subscription => Some(false),
        },
        overrides is None || overrides->0.idempotent_hint is None ==> annotations.idempotent_hint
            == match operation_type {
            OperationType::Query => Some(true),
            OperationType::Mutation => None,
            OperationType::Subscription => Some(true),
        },
        overrides is None || overrides->0.open_world_hint is None ==> annotations.open_world_hint
            == Some(true),
        overrides is None || overrides->0.title is None ==> annotations.title is None,
{
}

/// What is made of a document is made of its operation.
proof fn lemma_made(
    made: Operation,
    raw: RawOperation,
    schema: GraphqlSchema,
    scalars: Option<&CustomScalarMap>,
    mutation_mode: MutationMode,
    options: ToolOptions,
    annotation_overrides: Map<Seq<char>, AnnotationOverrides>,
    description_overrides: Map<Seq<char>, Seq<char>>,
    analysis: Analysis,
    log: LogLevels,
    definitions: Seq<DefinitionView>,
    i: int,
    operation: OperationView,
    span: Option<Span>,
)
    requires
        loads(
            Ok(Some(made)),
            raw,
            schema,
            scalars,
            mutation_mode,
            options,
            annotation_overrides,
            description_overrides,
            analysis,
            log,
        ),
        parsed(raw.source_text@) == Some(definitions),
        0 <= i < definitions.len(),
        definitions[i] == DefinitionView::Operation(operation, span),
    ensures
        is_only_operation(definitions, i),
        operation.name is Some,
        definitions_fit(raw.source_text@, definitions),
        is_made_of(
            made,
            operation,
            text_before(raw.source_text@, definitions, i),
            raw,
            schema,
            scalars,
            options,
            annotation_overrides,
            description_overrides,
            analysis,
        ),
{
    lemma_only_operation(definitions);
    if !is_only_operation(definitions, i) {
        let k = choose|k: int| #[trigger] is_only_operation(definitions, k);
        assert(i == k || !(definitions[i] is Operation));
    }
}

/// The tool of a loaded operation has its name.
pub proof fn law_loaded_tools_have_the_name_of_the_operation(
    made: Operation,
    raw: RawOperation,
    schema: GraphqlSchema,
    scalars: Option<&CustomScalarMap>,
    mutation_mode: MutationMode,
    options: ToolOptions,
    annotation_overrides: Map<Seq<char>, AnnotationOverrides>,
    description_overrides: Map<Seq<char>, Seq<char>>,
    analysis: Analysis,
    log: LogLevels,
    definitions: Seq<DefinitionView>,
    i: int,
    operation: OperationView,
    span: Option<Span>,
)
    requires
        loads(
            Ok(Some(made)),
            raw,
            schema,
            scalars,
            mutation_mode,
            options,
            annotation_overrides,
            description_overrides,
            analysis,
            log,
        ),
        parsed(raw.source_text@) == Some(definitions),
        0 <= i < definitions.len(),
        definitions[i] == DefinitionView::Operation(operation, span),
    ensures
        operation.name is Some,
        made.tool.name@ == operation.name->0.text,
        made.operation_name@ == operation.name->0.text,
        made.inner == raw,
{
    lemma_made(
        made,
        raw,
        schema,
        scalars,
        mutation_mode,
        options,
        annotation_overrides,
        description_overrides,
        analysis,
        log,
        definitions,
        i,
        operation,
        span,
    );
}

/// The hints of a loaded tool: each that an operator sets under the operation's name, and for the
/// others what follows from the kind of the operation.
pub proof fn law_loaded_tools_have_the_hints_that_are_set(
    made: Operation,
    raw: RawOperation,
    schema: GraphqlSchema,
    scalars: Option<&CustomScalarMap>,
    mutation_mode: MutationMode,
    options: ToolOptions,
    annotation_overrides: Map<Seq<char>, AnnotationOverrides>,
    description_overrides: Map<Seq<char>, Seq<char>>,
    analysis: Analysis,
    log: LogLevels,
    definitions: Seq<DefinitionView>,
    i: int,
    operation: OperationView,
    span: Option<Span>,
    value: bool,
)
    requires
        loads(
            Ok(Some(made)),
            raw,
            schema,
            scalars,
            mutation_mode,
            options,
            annotation_overrides,
            description_overrides,
            analysis,
            log,
        ),
        parsed(raw.source_text@) == Some(definitions),
        0 <= i < definitions.len(),
        definitions[i] == DefinitionView::Operation(operation, span),
    ensures
        ({
            let hints = made.tool.annotations->0;
            let name = operation.name->0.text;
            let set = annotation_overrides[name];
            let known = annotation_overrides.contains_key(name);
            let query = operation.operation_type != OperationType::Mutation;
            &&& operation.name is Some
            &&& made.tool.annotations is Some
            &&& known && set.read_only_hint == Some(value) ==> hints.read_only_hint == Some(value)
            &&& known && set.destructive_hint == Some(value) ==> hints.destructive_hint == Some(
                value,
            )
            &&& known && set.idempotent_hint == Some(value) ==> hints.idempotent_hint == Some(value)
            &&& known && set.open_world_hint == Some(value) ==> hints.open_world_hint == Some(value)
            &&& known && set.title is Some ==> hints.title is Some && hints.title->0@
                == set.title->0@
            &&& !known || set.read_only_hint is None ==> hints.read_only_hint == Some(query)
            &&& !known || set.destructive_hint is None ==> hints.destructive_hint == Some(!query)
            &&& !known || set.idempotent_hint is None ==> hints.idempotent_hint == if query {
                Some(true)
            } else {
                None
            }
            &&& !known || set.open_world_hint is None ==> hints.open_world_hint == Some(true)
            &&& !known || set.title is None ==> hints.title is None
        }),
{
    lemma_made(
        made,
        raw,
        schema,
        scalars,
        mutation_mode,
        options,
        annotation_overrides,
        description_overrides,
        analysis,
        log,
        definitions,
        i,
        operation,
        span,
    );
}

/// The description of a loaded tool is the one that an operator sets under the operation's name,
/// else the words of the comment before the operation, else what the schema says.
pub proof fn law_loaded_tools_are_described(
    made: Operation,
    raw: RawOperation,
    schema: GraphqlSchema,
    scalars: Option<&CustomScalarMap>,
    mutation_mode: MutationMode,
    options: ToolOptions,
    annotation_overrides: Map<Seq<char>, AnnotationOverrides>,
    description_overrides: Map<Seq<char>, Seq<char>>,
    analysis: Analysis,
    log: LogLevels,
    definitions: Seq<DefinitionView>,
    i: int,
    operation: OperationView,
    span: Option<Span>,
)
    requires
        loads(
            Ok(Some(made)),
            raw,
            schema,
            scalars,
            mutation_mode,
            options,
            annotation_overrides,
            description_overrides,
            analysis,
            log,
        ),
        parsed(raw.source_text@) == Some(definitions),
        0 <= i < definitions.len(),
        definitions[i] == DefinitionView::Operation(operation, span),
    ensures
        ({
            let name = operation.name->0.text;
            let comments = text_before(raw.source_text@, definitions, i);
            let set = description_overrides.contains_key(name);
            &&& operation.name is Some
            &&& made.tool.description is Some
            &&& set ==> made.tool.description->0@ == description_overrides[name]
            &&& !set && comment_words(comments) is Some ==> made.tool.description->0@
                == comment_words(comments)->0
            &&& !set ==> made.tool.description->0@ == operation_description(
                comments,
                analysis.shaken_types@,
                schema,
                operation,
                options.disable_type_description,
                options.disable_schema_description,
            )
        }),
{
    lemma_made(
        made,
        raw,
        schema,
        scalars,
        mutation_mode,
        options,
        annotation_overrides,
        description_overrides,
        analysis,
        log,
        definitions,
        i,
        operation,
        span,
    );
}

/// The properties of a loaded tool's input schema are the variables of the operation that the
/// operation itself gives no value, and it requires those whose type is non-null.
pub proof fn law_loaded_tools_take_the_open_variables(
    made: Operation,
    raw: RawOperation,
    schema: GraphqlSchema,
    scalars: Option<&CustomScalarMap>,
    mutation_mode: MutationMode,
    options: ToolOptions,
    annotation_overrides: Map<Seq<char>, AnnotationOverrides>,
    description_overrides: Map<Seq<char>, Seq<char>>,
    analysis: Analysis,
    log: LogLevels,
    definitions: Seq<DefinitionView>,
    i: int,
    operation: OperationView,
    span: Option<Span>,
    name: Seq<char>,
)
    requires
        loads(
            Ok(Some(made)),
            raw,
            schema,
            scalars,
            mutation_mode,
            options,
            annotation_overrides,
            description_overrides,
            analysis,
            log,
        ),
        parsed(raw.source_text@) == Some(definitions),
        0 <= i < definitions.len(),
        definitions[i] == DefinitionView::Operation(operation, span),
    ensures
        ({
            let input = json::members(made.tool.input_schema);
            let given = raw.variables is Some && json::members(raw.variables->0).contains_key(name);
            let declared = exists|k: int|
                0 <= k < operation.variables.len() && (#[trigger] operation.variables[k]).name
                    == name;
            let demanded = exists|k: int|
                0 <= k < operation.variables.len() && (#[trigger] operation.variables[k]).name
                    == name && (operation.variables[k].ty is NonNullNamed
                    || operation.variables[k].ty is NonNullList);
            &&& properties_in(input).contains_key(name) <==> declared && !given
            &&& required_in(input).contains(Json::String(name)) <==> demanded && !given
        }),
{
    lemma_made(
        made,
        raw,
        schema,
        scalars,
        mutation_mode,
        options,
        annotation_overrides,
        description_overrides,
        analysis,
        log,
        definitions,
        i,
        operation,
        span,
    );
    lemma_offered(
        schema.types@,
        scalars_of(scalars),
        tool_docs(operation, raw, analysis),
        operation.variables,
        match raw.variables {
            Some(variables) => json::members(variables),
            None => json::no_members(),
        },
        name,
    );
}

/// The schema of the open variables offers them and requires those that are non-null.
proof fn lemma_offered(
    types: Types,
    scalars: Scalars,
    docs: Docs,
    variables: Seq<VariableView>,
    given: Map<Seq<char>, Json>,
    name: Seq<char>,
)
    ensures
        ({
            let input = variables_schema(types, scalars, docs, open_variables(variables, given));
            &&& properties_in(input).contains_key(name) <==> !given.contains_key(name)
                && exists|k: int|
                0 <= k < variables.len() && (#[trigger] variables[k]).name == name
            &&& required_in(input).contains(Json::String(name)) <==> !given.contains_key(name)
                && exists|k: int|
                0 <= k < variables.len() && (#[trigger] variables[k]).name == name && (
                variables[k].ty is NonNullNamed || variables[k].ty is NonNullList)
        }),
{
    let open = open_variables(variables, given);
    law_properties_are_the_variables(types, scalars, docs, open, name);
    law_required_are_the_non_null_variables(types, scalars, docs, open, name);
    lemma_open(variables, given);
    if exists|k: int| 0 <= k < open.len() && (#[trigger] open[k]).name == name {
        let k = choose|k: int| 0 <= k < open.len() && (#[trigger] open[k]).name == name;
        let l = choose|l: int| 0 <= l < variables.len() && #[trigger] variables[l] == open[k];
        assert(variables[l].name == name);
    }
    if exists|k: int|
        0 <= k < open.len() && (#[trigger] open[k]).name == name && open[k].ty.non_null() {
        let k = choose|k: int|
            0 <= k < open.len() && (#[trigger] open[k]).name == name && open[k].ty.non_null();
        let l = choose|l: int| 0 <= l < variables.len() && #[trigger] variables[l] == open[k];
        assert(variables[l].name == name);
    }
    if !given.contains_key(name) {
        assert forall|l: int|
            0 <= l < variables.len() && (#[trigger] variables[l]).name == name implies exists|k: int|
            0 <= k < open.len() && #[trigger] open[k] == variables[l] by {}
    }
}

/// The input schema of a loaded tool is the schema of the open variables, as `schemars` writes
/// it. Variables are described by their comments in the source text, and by what the schema says
/// of the arguments that they are used for.
pub proof fn law_loaded_tools_have_the_schema_of_their_variables(
    made: Operation,
    raw: RawOperation,
    schema: GraphqlSchema,
    scalars: Option<&CustomScalarMap>,
    mutation_mode: MutationMode,
    options: ToolOptions,
    annotation_overrides: Map<Seq<char>, AnnotationOverrides>,
    description_overrides: Map<Seq<char>, Seq<char>>,
    analysis: Analysis,
    log: LogLevels,
    definitions: Seq<DefinitionView>,
    i: int,
    operation: OperationView,
    span: Option<Span>,
    docs: Docs,
    given: Map<Seq<char>, Json>,
)
    requires
        loads(
            Ok(Some(made)),
            raw,
            schema,
            scalars,
            mutation_mode,
            options,
            annotation_overrides,
            description_overrides,
            analysis,
            log,
        ),
        parsed(raw.source_text@) == Some(definitions),
        0 <= i < definitions.len(),
        definitions[i] == DefinitionView::Operation(operation, span),
        docs.comments == variable_comments(raw.source_text@, operation),
        docs.arguments.dom() == analysis.argument_descriptions@.dom(),
        forall|name: Seq<char>| #[trigger]
            docs.arguments.contains_key(name) ==> docs.arguments[name] == views(
                analysis.argument_descriptions@[name]@,
            ),
        raw.variables is Some ==> given == json::members(raw.variables->0),
        raw.variables is None ==> given == Map::<Seq<char>, Json>::empty(),
    ensures
        Ordered::Object(json::ordered_members(made.tool.input_schema)) == json::arranged(
            Ordered::Object(
                variables_schema_layout(
                    schema.types@,
                    scalars_of(scalars),
                    docs,
                    open_variables(operation.variables, given),
                ),
            ),
        ),
{
    lemma_made(
        made,
        raw,
        schema,
        scalars,
        mutation_mode,
        options,
        annotation_overrides,
        description_overrides,
        analysis,
        log,
        definitions,
        i,
        operation,
        span,
    );
    assert(docs.arguments =~= tool_docs(operation, raw, analysis).arguments);
    assert(docs == tool_docs(operation, raw, analysis));
}

/// The open variables are those of the variables that have no value.
proof fn lemma_open(variables: Seq<VariableView>, given: Map<Seq<char>, Json>)
    ensures
        forall|k: int|
            0 <= k < open_variables(variables, given).len() ==> !given.contains_key(
                (#[trigger] open_variables(variables, given)[k]).name,
            ) && exists|l: int|
                0 <= l < variables.len() && #[trigger] variables[l] == open_variables(
                    variables,
                    given,
                )[k],
        forall|l: int|
            0 <= l < variables.len() && !given.contains_key((#[trigger] variables[l]).name)
                ==> exists|k: int|
                0 <= k < open_variables(variables, given).len() && #[trigger] open_variables(
                    variables,
                    given,
                )[k] == variables[l],
    decreases variables.len(),
{
    reveal(Seq::filter);
    let open = open_variables(variables, given);
    if variables.len() > 0 {
        let front = variables.drop_last();
        let last = variables.last();
        let before = open_variables(front, given);
        lemma_open(front, given);
        assert forall|k: int| 0 <= k < open.len() implies !given.contains_key(
            (#[trigger] open[k]).name,
        ) && exists|l: int| 0 <= l < variables.len() && #[trigger] variables[l] == open[k] by {
            if k < before.len() {
                assert(open[k] == before[k]);
                let l = choose|l: int| 0 <= l < front.len() && #[trigger] front[l] == before[k];
                assert(variables[l] == open[k]);
            } else {
                assert(variables[variables.len() - 1] == open[k]);
            }
        }
        assert forall|l: int|
            0 <= l < variables.len() && !given.contains_key(
                (#[trigger] variables[l]).name,
            ) implies exists|k: int| 0 <= k < open.len() && #[trigger] open[k] == variables[l] by {
            if l < front.len() {
                assert(front[l] == variables[l]);
                let k = choose|k: int| 0 <= k < before.len() && #[trigger] before[k] == front[l];
                assert(open[k] == variables[l]);
            } else {
                assert(open[before.len() as int] == last);
            }
        }
    }
}

/// A loaded tool has an output schema if and only if they are switched on, the schema has the
/// root type for the kind of the operation, and the schema of the response is an object: that
/// is the output schema, with its members in order.
pub proof fn law_loaded_tools_have_the_schema_of_the_response(
    made: Operation,
    raw: RawOperation,
    schema: GraphqlSchema,
    scalars: Option<&CustomScalarMap>,
    mutation_mode: MutationMode,
    options: ToolOptions,
    annotation_overrides: Map<Seq<char>, AnnotationOverrides>,
    description_overrides: Map<Seq<char>, Seq<char>>,
    analysis: Analysis,
    log: LogLevels,
    definitions: Seq<DefinitionView>,
    i: int,
    operation: OperationView,
    span: Option<Span>,
)
    requires
        loads(
            Ok(Some(made)),
            raw,
            schema,
            scalars,
            mutation_mode,
            options,
            annotation_overrides,
            description_overrides,
            analysis,
            log,
        ),
        parsed(raw.source_text@) == Some(definitions),
        0 <= i < definitions.len(),
        definitions[i] == DefinitionView::Operation(operation, span),
    ensures
        ({
            let root = match operation.operation_type {
                OperationType::Query => schema.query,
                OperationType::Mutation => schema.mutation,
                OperationType::Subscription => schema.subscription,
            };
            let shown = options.enable_output_schema && root is Some && schema.types@.contains_key(
                root->0@,
            ) && analysis.selection_schema is Some && json::ordered(
                analysis.selection_schema->0,
            ) is Object;
            &&& made.tool.output_schema is Some <==> shown
            &&& shown ==> Ordered::Object(json::ordered_members(made.tool.output_schema->0))
                == json::ordered(analysis.selection_schema->0)
        }),
{
    lemma_made(
        made,
        raw,
        schema,
        scalars,
        mutation_mode,
        options,
        annotation_overrides,
        description_overrides,
        analysis,
        log,
        definitions,
        i,
        operation,
        span,
    );
}

/// The private fields of a loaded operation, and the document without their marks, are kept where
/// the operation has private fields, and only there.
pub proof fn law_loaded_operations_keep_private_fields(
    made: Operation,
    raw: RawOperation,
    schema: GraphqlSchema,
    scalars: Option<&CustomScalarMap>,
    mutation_mode: MutationMode,
    options: ToolOptions,
    annotation_overrides: Map<Seq<char>, AnnotationOverrides>,
    description_overrides: Map<Seq<char>, Seq<char>>,
    analysis: Analysis,
    log: LogLevels,
    definitions: Seq<DefinitionView>,
    i: int,
    operation: OperationView,
    span: Option<Span>,
)
    requires
        loads(
            Ok(Some(made)),
            raw,
            schema,
            scalars,
            mutation_mode,
            options,
            annotation_overrides,
            description_overrides,
            analysis,
            log,
        ),
        parsed(raw.source_text@) == Some(definitions),
        0 <= i < definitions.len(),
        definitions[i] == DefinitionView::Operation(operation, span),
    ensures
        analysis.private_fields@.len() == 0 ==> made.private_fields is None
            && made.stripped_source_text is None,
        analysis.private_fields@.len() > 0 ==> tree_view(made.private_fields) == Some(
            analysis.private_fields@,
        ) && text_of(made.stripped_source_text) == Some(analysis.stripped_source_text@),
{
    lemma_made(
        made,
        raw,
        schema,
        scalars,
        mutation_mode,
        options,
        annotation_overrides,
        description_overrides,
        analysis,
        log,
        definitions,
        i,
        operation,
        span,
    );
}

/// What loading gives, for each kind of operation. A text that is no GraphQL document is an error.
/// A named subscription gives nothing, and so does a named mutation in the mode without mutations.
/// A query, or a mutation in another mode, gives nothing without a name. With one it gives a
/// tool, wherever the text before each of its variables can be looked at.
pub proof fn law_what_is_loaded(
    r: Result<Option<Operation>, OperationError>,
    raw: RawOperation,
    schema: GraphqlSchema,
    scalars: Option<&CustomScalarMap>,
    mutation_mode: MutationMode,
    options: ToolOptions,
    annotation_overrides: Map<Seq<char>, AnnotationOverrides>,
    description_overrides: Map<Seq<char>, Seq<char>>,
    analysis: Analysis,
    log: LogLevels,
    definitions: Seq<DefinitionView>,
    i: int,
    operation: OperationView,
    span: Option<Span>,
)
    requires
        loads(
            r,
            raw,
            schema,
            scalars,
            mutation_mode,
            options,
            annotation_overrides,
            description_overrides,
            analysis,
            log,
        ),
    ensures
        parsed(raw.source_text@) is None ==> r is Err && r->Err_0@
            == OperationErrorView::GraphQLDocument(
            match raw.source_path {
                Some(path) => path@,
                None => "operation.graphql"@,
            },
            raw.source_text@,
        ),
        parsed(raw.source_text@) == Some(definitions) && definitions_fit(
            raw.source_text@,
            definitions,
        ) && is_only_operation(definitions, i) && definitions[i] == DefinitionView::Operation(
            operation,
            span,
        ) ==> {
            let nothing = Ok::<Option<Operation>, OperationError>(None);
            let mutations = mutation_mode == MutationMode::Explicit || mutation_mode
                == MutationMode::All;
            let wanted = operation.operation_type == OperationType::Query || (
            operation.operation_type == OperationType::Mutation && mutations);
            &&& operation.operation_type == OperationType::Subscription && operation.name is Some
                ==> r == nothing
            &&& operation.operation_type == OperationType::Mutation && !mutations
                && operation.name is Some ==> r == nothing
            &&& wanted && operation.name is None ==> r == nothing
            &&& wanted && operation.name is Some && comments_fit(raw.source_text@, operation)
                ==> r is Ok && r->Ok_0 is Some
            &&& wanted && operation.name is Some && !comments_fit(raw.source_text@, operation)
                ==> r is Err
        },
        parsed(raw.source_text@) == Some(definitions) && definitions_fit(
            raw.source_text@,
            definitions,
        ) && (forall|k: int|
            0 <= k < definitions.len() ==> !((#[trigger] definitions[k]) is Operation)) ==> r is Err
            && r->Err_0@ == OperationErrorView::NoOperations(text_of(raw.source_path)),
{
    if parsed(raw.source_text@) == Some(definitions) {
        lemma_only_operation(definitions);
    }
}

/// The length of a tool counts the bytes of its name, of its description and of each of its
/// schemas as they are printed: each adds its own, and what is missing adds nothing.
pub proof fn law_tool_length(tool: Tool, named: Tool)
    requires
        named.name == tool.name,
        named.description is None,
        named.input_schema == tool.input_schema,
        named.output_schema is None,
    ensures
        tool_length(named) == encode_utf8(tool.name@).len() + json::pretty_len(
            Json::Object(json::members(tool.input_schema)),
        ),
        tool_length(tool) == tool_length(named) + (if tool.description is Some {
            encode_utf8(tool.description->0@).len()
        } else {
            0
        }) + (if tool.output_schema is Some {
            json::pretty_len(Json::Object(json::members(tool.output_schema->0)))
        } else {
            0
        }),
{
}

/// What is the same says the same, field by field.
pub proof fn law_what_is_the_same_says_the_same(
    tool: Tool,
    other_tool: Tool,
    raw: RawOperation,
    other_raw: RawOperation,
)
    requires
        tool.same(other_tool),
        raw.same(other_raw),
    ensures
        tool.name@ == other_tool.name@,
        text_of(tool.description) == text_of(other_tool.description),
        json::ordered_members(tool.input_schema) == json::ordered_members(other_tool.input_schema),
        tool.output_schema is Some <==> other_tool.output_schema is Some,
        tool.output_schema is Some ==> json::ordered_members(tool.output_schema->0)
            == json::ordered_members(other_tool.output_schema->0),
        tool.annotations is Some <==> other_tool.annotations is Some,
        tool.annotations is Some ==> {
            let a = tool.annotations->0;
            let b = other_tool.annotations->0;
            &&& text_of(a.title) == text_of(b.title)
            &&& a.read_only_hint == b.read_only_hint
            &&& a.destructive_hint == b.destructive_hint
            &&& a.idempotent_hint == b.idempotent_hint
            &&& a.open_world_hint == b.open_world_hint
        },
        raw.source_text@ == other_raw.source_text@,
        text_of(raw.source_path) == text_of(other_raw.source_path),
        raw.variables is Some <==> other_raw.variables is Some,
        raw.variables is Some ==> json::ordered_members(raw.variables->0) == json::ordered_members(
            other_raw.variables->0,
        ),
        raw.headers is Some <==> other_raw.headers is Some,
        raw.headers is Some ==> headers_in(raw.headers->0) == headers_in(other_raw.headers->0),
{
}

} // verus!
