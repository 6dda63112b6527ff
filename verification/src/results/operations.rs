//! What the functions that read operation documents return.

use crate::document::{
    definition_views, definitions, definitions_of, operation_from_ast, operation_of, parsed,
    type_from_ast, type_of, Definition, DefinitionView, OperationDef, OperationView, Span,
};
use crate::graphql::{GraphqlSchema, GraphqlType, OperationType};
use crate::json::Object;
use crate::operation::comments::{
    comment_words, comments_fit, do_comments_fit, extract_and_format_comments,
    find_opening_parens_offset, law_variables_are_described_by_their_comments, opening_offset,
    text_map, variable_description_overrides,
};
use crate::operation::error::{OperationError, OperationErrorView};
use crate::operation::input_schema::{members_of, open_variables, type_names, variable_type_names};
use crate::operation::load::{load_step, loading};
use crate::operation::select::{
    choice_view, choose_operation, count_other_definitions, definitions_fit, do_definitions_fit,
    is_only_operation, law_documents_are_read, law_exactly_one_operation,
    law_operations_that_are_skipped, law_operations_that_are_taken, operation_defs,
    operation_name, parsed_view, read_document, select_operation, selection_view, Choice,
    LogLevels, ParsedOperation, ReadDocument,
};
use crate::operation::warnings::{schema_warnings, warned, warning_views, Warning};
use crate::operation::{MutationMode, RawOperation};
use crate::schema_walker::walk::{scalars_of, CustomScalarMap};
use crate::string_map::StringMap;
use crate::text::{part, text_of};
use apollo_compiler::ast;
use vstd::prelude::*;

verus! {

/// The only operation of a document is taken if it is a query, or a mutation and mutations are
/// allowed, and then it is that operation. Else it is skipped, or refused for want of a name.
pub proof fn law_choice_of_the_only_operation(
    source: &str,
    definitions: Vec<Definition>,
    allow_mutations: bool,
    source_path: Option<String>,
    log: LogLevels,
    r: Result<Choice, OperationError>,
    i: int,
    operation: OperationView,
    span: Option<Span>,
)
    requires
        call_ensures(
            choose_operation,
            (source, definitions, allow_mutations, source_path, log),
            r,
        ),
        is_only_operation(definition_views(definitions@), i),
        definition_views(definitions@)[i] == DefinitionView::Operation(operation, span),
    ensures
        ({
            let wanted = operation.operation_type == OperationType::Query || (
            operation.operation_type == OperationType::Mutation && allow_mutations);
            &&& wanted ==> r is Ok && r->Ok_0 is Take && r->Ok_0->Take_0@ == operation
            &&& !wanted && operation.name is Some ==> r is Ok && r->Ok_0 is Skip
            &&& !wanted && operation.name is None ==> (r is Ok && r->Ok_0 is Skip) || (r is Err
                && r->Err_0@ == OperationErrorView::MissingName(
                text_of(source_path),
                operation.text,
            ))
        }),
{
    let views = definition_views(definitions@);
    law_operations_that_are_taken(
        source@,
        views,
        allow_mutations,
        text_of(source_path),
        log,
        i,
        operation,
        span,
    );
    law_operations_that_are_skipped(
        source@,
        views,
        text_of(source_path),
        log,
        allow_mutations,
        i,
        operation,
        span,
    );
}

/// Without an operation, and with more than one, there is no choice but an error.
pub proof fn law_no_choice(
    source: &str,
    definitions: Vec<Definition>,
    allow_mutations: bool,
    source_path: Option<String>,
    log: LogLevels,
    r: Result<Choice, OperationError>,
    i: int,
    j: int,
)
    requires
        call_ensures(
            choose_operation,
            (source, definitions, allow_mutations, source_path, log),
            r,
        ),
    ensures
        ({
            let views = definition_views(definitions@);
            &&& (forall|k: int| 0 <= k < views.len() ==> !((#[trigger] views[k]) is Operation))
                ==> r is Err && r->Err_0@ == OperationErrorView::NoOperations(text_of(source_path))
            &&& 0 <= i < j < views.len() && views[i] is Operation && views[j] is Operation ==> r
                is Err && r->Err_0@ == OperationErrorView::TooManyOperations(
                text_of(source_path),
                views.filter(|definition: DefinitionView| definition is Operation).len() as int,
            )
        }),
{
    law_exactly_one_operation(
        source@,
        definition_views(definitions@),
        allow_mutations,
        text_of(source_path),
        log,
        i,
        j,
    );
}

/// An operation that is selected is the one that is chosen, from the definitions that the text
/// holds. A text that is no document is an error that tells of it.
pub proof fn law_selected_operation(
    source: &str,
    definitions: Vec<Definition>,
    allow_mutations: bool,
    source_path: Option<String>,
    log: LogLevels,
    choice: Result<Choice, OperationError>,
    selection: Result<Option<(OperationDef, Option<String>)>, OperationError>,
    operation: Result<Option<ParsedOperation>, OperationError>,
)
    requires
        call_ensures(
            choose_operation,
            (source, definitions, allow_mutations, source_path, log),
            choice,
        ),
        call_ensures(
            select_operation,
            (source, definitions, allow_mutations, source_path, log),
            selection,
        ),
        call_ensures(operation_defs, (source, allow_mutations, source_path, log), operation),
        definitions_fit(source@, definition_views(definitions@)),
    ensures
        selection is Err <==> choice is Err,
        selection is Err ==> selection->Err_0@ == choice->Err_0@,
        selection is Ok ==> (selection->Ok_0 is Some <==> choice->Ok_0 is Take),
        selection is Ok && selection->Ok_0 is Some ==> (selection->Ok_0->0).0@
            == choice->Ok_0->Take_0@ && text_of((selection->Ok_0->0).1) == text_of(
            choice->Ok_0->Take_1,
        ),
        parsed(source@) == Some(definition_views(definitions@)) ==> parsed_view(operation)
            == selection_view(selection),
        parsed(source@) is None ==> operation is Err && operation->Err_0@
            == OperationErrorView::GraphQLDocument(
            if source_path is Some {
                source_path->0@
            } else {
                "operation.graphql"@
            },
            source@,
        ),
{
    law_documents_are_read(
        source@,
        definition_views(definitions@),
        text_of(source_path),
        allow_mutations,
        log,
    );
}

/// The name of an operation is its name, and a missing one is an error that shows the operation.
pub proof fn law_name(
    operation: OperationDef,
    source_path: Option<String>,
    r: Result<String, OperationError>,
)
    requires
        call_ensures(operation_name, (&operation, source_path), r),
    ensures
        operation.name is Some ==> r is Ok && r->Ok_0@ == operation.name->0.text@,
        operation.name is None ==> r is Err && r->Err_0@ == OperationErrorView::MissingName(
            text_of(source_path),
            operation.text@,
        ),
{
}

/// Mutations are left out in one mode, and taken in the two others.
pub proof fn law_mode_of_mutations(
    raw: RawOperation,
    definitions: Vec<Definition>,
    mutation_mode: MutationMode,
    log: LogLevels,
    r: Result<Choice, OperationError>,
)
    requires
        call_ensures(load_step, (&raw, definitions, mutation_mode, log), r),
    ensures
        choice_view(r) == loading(
            raw.source_text@,
            definition_views(definitions@),
            match mutation_mode {
                MutationMode::Never => false,
                MutationMode::Explicit => true,
                MutationMode::All => true,
            },
            text_of(raw.source_path),
            log,
        ),
{
}

/// The words of a comment are found wherever there are any, and are what is left of it.
pub proof fn law_words(comments: Option<String>, r: Option<String>)
    requires
        call_ensures(extract_and_format_comments, (comments,), r),
    ensures
        comments is None ==> r is None,
        r is Some <==> comment_words(text_of(comments)) is Some,
        r is Some ==> r->0@ == comment_words(text_of(comments))->0,
{
}

/// A variable is described by the comment before it, where that holds a comment sign and words.
pub proof fn law_described_variables(
    source: &str,
    operation: OperationDef,
    r: StringMap<String>,
    i: int,
    name: Seq<char>,
)
    requires
        call_ensures(variable_description_overrides, (source, &operation), r),
        forall|j: int, k: int|
            0 <= j < k < operation@.variables.len() ==> (#[trigger] operation@.variables[j]).name
                != (#[trigger] operation@.variables[k]).name,
    ensures
        (forall|j: int|
            0 <= j < operation@.variables.len() ==> (#[trigger] operation@.variables[j]).name
                != name) ==> !r@.contains_key(name),
        0 <= i < operation@.variables.len() ==> {
            let variable = operation@.variables[i];
            let start = if i == 0 {
                opening_offset(source@, operation@.name)
            } else {
                match operation@.variables[i - 1].span {
                    Some(span) => Some(span.end as int),
                    None => None,
                }
            };
            let before = part(source@, start->0, variable.span->0.start as int);
            let words = comment_words(Some(before));
            &&& r@.contains_key(variable.name) <==> start is Some && variable.span is Some
                && before.contains('#') && words is Some
            &&& r@.contains_key(variable.name) ==> r@[variable.name]@ == words->0
        },
{
    law_variables_are_described_by_their_comments(source@, operation@, i, name);
    assert(text_map(r@).contains_key(name) == r@.contains_key(name));
    if 0 <= i < operation@.variables.len() {
        let other = operation@.variables[i].name;
        assert(text_map(r@).contains_key(other) == r@.contains_key(other));
    }
}

/// Where the variables open, and whether comments and definitions fit, is told as it is.
pub proof fn law_places(
    source: &str,
    operation: OperationDef,
    opening: Option<usize>,
    comments: bool,
    definitions: Vec<Definition>,
    fit: bool,
    others: usize,
)
    requires
        call_ensures(find_opening_parens_offset, (source, &operation), opening),
        call_ensures(do_comments_fit, (source, &operation), comments),
        call_ensures(do_definitions_fit, (source, &definitions), fit),
        call_ensures(count_other_definitions, (&definitions,), others),
    ensures
        opening is Some <==> opening_offset(source@, operation@.name) is Some,
        opening is Some ==> opening->0 == opening_offset(source@, operation@.name)->0,
        comments <==> comments_fit(source@, operation@),
        fit <==> definitions_fit(source@, definition_views(definitions@)),
        others == definition_views(definitions@).filter(
            |definition: DefinitionView| definition is Other,
        ).len(),
{
}

/// What is told of types is told of those of the open variables, in order.
pub proof fn law_told_of_types(
    operation: OperationDef,
    schema: GraphqlSchema,
    scalars: Option<&CustomScalarMap>,
    given: Option<&Object>,
    r: Vec<Warning>,
)
    requires
        call_ensures(schema_warnings, (&operation, &schema, scalars, given), r),
    ensures
        warning_views(r@) == warned(
            schema.types@,
            scalars_of(scalars),
            Set::empty(),
            type_names(open_variables(operation@.variables, members_of(given))),
        ),
{
    let open = open_variables(operation@.variables, members_of(given));
    assert(variable_type_names(open) =~= type_names(open));
}

/// A document is read with all its definitions where they stand one after the other in the text.
/// A text that is no document is an error.
pub proof fn law_read_documents(
    source: &str,
    source_path: Option<String>,
    definitions: Seq<DefinitionView>,
    r: Result<ReadDocument, OperationError>,
)
    requires
        call_ensures(read_document, (source, &source_path), r),
    ensures
        parsed(source@) is None ==> r is Err && r->Err_0@ == OperationErrorView::GraphQLDocument(
            if source_path is Some {
                source_path->0@
            } else {
                "operation.graphql"@
            },
            source@,
        ),
        parsed(source@) == Some(definitions) && definitions_fit(source@, definitions) ==> r is Ok
            && definition_views(r->Ok_0.definitions@) == definitions,
        parsed(source@) == Some(definitions) && !definitions_fit(source@, definitions) ==> r is Err,
{
}

/// What is read of a parsed document is what the document holds.
pub proof fn law_read_definitions(
    document: ast::Document,
    operation: ast::OperationDefinition,
    ty: ast::Type,
    definitions_read: Vec<Definition>,
    operation_read: OperationDef,
    type_read: GraphqlType,
)
    requires
        call_ensures(definitions, (&document,), definitions_read),
        call_ensures(operation_from_ast, (&operation,), operation_read),
        call_ensures(type_from_ast, (&ty,), type_read),
    ensures
        definition_views(definitions_read@) == definitions_of(document),
        operation_read@ == operation_of(operation),
        type_read.view() == type_of(ty),
{
}

} // verus!
