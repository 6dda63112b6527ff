//! What the functions that make tools return.

use crate::document::OperationDef;
use crate::graphql::{GraphqlSchema, GraphqlType, OperationType, TypeView};
use crate::json::{self, Json};
use crate::operation::comments::{comment_words, text_map};
use crate::operation::description::{
    is_worth_telling, law_a_comment_is_the_description, law_description_starts_with_the_fields,
    law_type_words, law_types_are_told_of_in_turn, operation_words, tool_description,
    type_description,
};
use crate::operation::error::OperationError;
use crate::operation::load::{
    annotations_for, is_made_of, loads, tool_character_length, LengthError, ToolOptions,
};
use crate::operation::loaded::{law_hints_follow_from_the_kind, law_operators_decide_about_hints};
use crate::operation::select::LogLevels;
use crate::operation::{
    tree_view, Analysis, AnnotationOverrides, MutationMode, Operation, RawOperation,
};
use crate::schema_walker::walk::CustomScalarMap;
use crate::shaken::{ShakenType, TypeKind};
use crate::string_map::StringMap;
use crate::text::text_of;
use crate::tool::{Tool, ToolAnnotations};
use vstd::prelude::*;
use vstd::utf8::encode_utf8;

verus! {

/// Each hint that an operator sets is the hint of the tool, for every kind of operation.
pub proof fn law_hints_of_an_operator(
    operation_type: OperationType,
    set: AnnotationOverrides,
    r: ToolAnnotations,
    value: bool,
)
    requires
        call_ensures(annotations_for, (operation_type, Some(&set)), r),
    ensures
        set.read_only_hint == Some(value) ==> r.read_only_hint == Some(value),
        set.destructive_hint == Some(value) ==> r.destructive_hint == Some(value),
        set.idempotent_hint == Some(value) ==> r.idempotent_hint == Some(value),
        set.open_world_hint == Some(value) ==> r.open_world_hint == Some(value),
        set.title is Some ==> r.title is Some && r.title->0@ == set.title->0@,
{
    law_operators_decide_about_hints(r, operation_type, set, value);
}

/// A hint that no operator sets follows from the kind of the operation, whether an operator sets
/// others or none.
pub proof fn law_hints_of_a_kind(
    operation_type: OperationType,
    set: AnnotationOverrides,
    r: ToolAnnotations,
    alone: ToolAnnotations,
)
    requires
        call_ensures(annotations_for, (operation_type, Some(&set)), r),
        call_ensures(annotations_for, (operation_type, None), alone),
    ensures
        alone.read_only_hint == match operation_type {
            OperationType::Query => Some(true),
            OperationType::Mutation => Some(false),
            OperationType::Subscription => Some(true),
        },
        alone.destructive_hint == match operation_type {
            OperationType::Query => Some(false),
            OperationType::Mutation => Some(true),
            OperationType::Subscription => Some(false),
        },
        alone.idempotent_hint == match operation_type {
            OperationType::Query => Some(true),
            OperationType::Mutation => None,
            OperationType::Subscription => Some(true),
        },
        alone.open_world_hint == Some(true),
        alone.title is None,
        set.read_only_hint is None ==> r.read_only_hint == alone.read_only_hint,
        set.destructive_hint is None ==> r.destructive_hint == alone.destructive_hint,
        set.idempotent_hint is None ==> r.idempotent_hint == alone.idempotent_hint,
        set.open_world_hint is None ==> r.open_world_hint == alone.open_world_hint,
        set.title is None ==> r.title is None,
{
    law_hints_follow_from_the_kind(r, operation_type, Some(set));
    law_hints_follow_from_the_kind(alone, operation_type, None);
}

/// Applying what an operator sets changes exactly the hints that are set.
pub proof fn law_applied_hints(set: AnnotationOverrides, annotations: &mut ToolAnnotations)
    requires
        call_ensures(AnnotationOverrides::apply_to, (&set, annotations), ()),
    ensures
        final(annotations).read_only_hint == if set.read_only_hint is Some {
            set.read_only_hint
        } else {
            old(annotations).read_only_hint
        },
        final(annotations).destructive_hint == if set.destructive_hint is Some {
            set.destructive_hint
        } else {
            old(annotations).destructive_hint
        },
        final(annotations).idempotent_hint == if set.idempotent_hint is Some {
            set.idempotent_hint
        } else {
            old(annotations).idempotent_hint
        },
        final(annotations).open_world_hint == if set.open_world_hint is Some {
            set.open_world_hint
        } else {
            old(annotations).open_world_hint
        },
        text_of(final(annotations).title) == if set.title is Some {
            text_of(set.title)
        } else {
            text_of(old(annotations).title)
        },
{
}

/// What is said of the type of a returned value, for each kind of type.
pub proof fn law_described_types(
    name: String,
    item: GraphqlType,
    named: String,
    strict: String,
    list: String,
    strict_list: String,
)
    requires
        call_ensures(type_description, (&GraphqlType::Named(name),), named),
        call_ensures(type_description, (&GraphqlType::NonNullNamed(name),), strict),
        call_ensures(type_description, (&GraphqlType::List(Box::new(item)),), list),
        call_ensures(type_description, (&GraphqlType::NonNullList(Box::new(item)),), strict_list),
    ensures
        named@ == "The returned value is optional and has type `"@ + name@ + "`"@,
        strict@ == "The returned value has type `"@ + name@ + "`"@,
        list@ == "The returned value is optional and is an array of type `"@
            + item.view().inner_name() + "`"@,
        strict_list@ == "The returned value is an array of type `"@ + item.view().inner_name()
            + "`"@,
{
    law_type_words(name@, item.view());
    assert(GraphqlType::List(Box::new(item)).view() == TypeView::List(Box::new(item.view())));
    assert(GraphqlType::NonNullList(Box::new(item)).view() == TypeView::NonNullList(
        Box::new(item.view()),
    ));
}

/// The words of a comment are the description, whatever the schema says.
pub proof fn law_description_by_a_comment(
    comments: Option<String>,
    types: Vec<ShakenType>,
    schema: GraphqlSchema,
    operation: OperationDef,
    no_fields: bool,
    no_types: bool,
    r: String,
)
    requires
        call_ensures(
            tool_description,
            (comments, &types, &schema, &operation, no_fields, no_types),
            r,
        ),
        comment_words(text_of(comments)) is Some,
    ensures
        r@ == comment_words(text_of(comments))->0,
{
    law_a_comment_is_the_description(
        text_of(comments),
        types@,
        schema,
        operation@,
        no_fields,
        no_types,
    );
}

/// Without a comment the description is what is said of the selected fields, unless that is
/// switched off, and as long as nothing is said of types.
pub proof fn law_description_by_the_fields(
    comments: Option<String>,
    types: Vec<ShakenType>,
    schema: GraphqlSchema,
    operation: OperationDef,
    no_fields: bool,
    no_types: bool,
    r: String,
)
    requires
        call_ensures(
            tool_description,
            (comments, &types, &schema, &operation, no_fields, no_types),
            r,
        ),
        comment_words(text_of(comments)) is None,
        no_types || types@.len() == 0,
    ensures
        no_fields ==> r@ == Seq::<char>::empty(),
        !no_fields ==> r@ == operation_words(schema, operation@),
{
    law_description_starts_with_the_fields(
        text_of(comments),
        types@,
        schema,
        operation@,
        no_types,
    );
}

/// Without a comment, and where types are described, one type more adds its definition at the end
/// of the description, on a line of its own and the first after a rule, where it is worth telling
/// of: it is an object, a scalar, an enum, an interface or a union, it is not built in, and it
/// is the root type neither of queries nor of the operation. Any other adds nothing.
pub proof fn law_description_with_one_type_more(
    comments: Option<String>,
    less: Vec<ShakenType>,
    more: Vec<ShakenType>,
    ty: ShakenType,
    schema: GraphqlSchema,
    operation: OperationDef,
    no_fields: bool,
    before: String,
    after: String,
)
    requires
        call_ensures(
            tool_description,
            (comments, &less, &schema, &operation, no_fields, false),
            before,
        ),
        call_ensures(
            tool_description,
            (comments, &more, &schema, &operation, no_fields, false),
            after,
        ),
        comment_words(text_of(comments)) is None,
        more@ == less@.push(ty),
    ensures
        ({
            let worth = |t: ShakenType|
                !t.built_in && (t.kind == TypeKind::Object || t.kind == TypeKind::Scalar || t.kind
                    == TypeKind::Enum || t.kind == TypeKind::Interface || t.kind
                    == TypeKind::Union) && !(schema.query is Some && schema.query->0@ == t.name@)
                    && !(operation.operation_type == OperationType::Mutation
                    && schema.mutation is Some && schema.mutation->0@ == t.name@) && !(
                operation.operation_type == OperationType::Subscription
                    && schema.subscription is Some && schema.subscription->0@ == t.name@);
            let ruled = exists|j: int| 0 <= j < less@.len() && worth(#[trigger] less@[j]);
            &&& !worth(ty) ==> after@ == before@
            &&& worth(ty) && ruled ==> after@ == before@ + "\n"@ + ty.sdl@
            &&& worth(ty) && !ruled && no_fields ==> after@ == "---"@ + "\n"@ + ty.sdl@
            &&& worth(ty) && !ruled && !no_fields ==> after@ == before@ + "\n"@ + "---"@ + "\n"@
                + ty.sdl@
        }),
{
    law_types_are_told_of_in_turn(
        text_of(comments),
        less@,
        ty,
        schema,
        operation@,
        no_fields,
    );
    let kind = operation.operation_type;
    let worth = |t: ShakenType|
        !t.built_in && (t.kind == TypeKind::Object || t.kind == TypeKind::Scalar || t.kind
            == TypeKind::Enum || t.kind == TypeKind::Interface || t.kind == TypeKind::Union) && !(
        schema.query is Some && schema.query->0@ == t.name@) && !(operation.operation_type
            == OperationType::Mutation && schema.mutation is Some && schema.mutation->0@
            == t.name@) && !(operation.operation_type == OperationType::Subscription
            && schema.subscription is Some && schema.subscription->0@ == t.name@);
    assert forall|t: ShakenType| worth(t) == #[trigger] is_worth_telling(schema, kind, t) by {}
    if exists|j: int| 0 <= j < less@.len() && worth(#[trigger] less@[j]) {
        let j = choose|j: int| 0 <= j < less@.len() && worth(#[trigger] less@[j]);
        assert(is_worth_telling(schema, kind, less@[j]));
    }
}

/// The length of a tool is told wherever it can be: it is the number of bytes of the name, of the
/// description and of the schemas as they are printed.
pub proof fn law_told_length(tool: Tool, r: Result<usize, LengthError>)
    requires
        call_ensures(tool_character_length, (&tool,), r),
    ensures
        ({
            let length = encode_utf8(tool.name@).len() + (if tool.description is Some {
                encode_utf8(tool.description->0@).len()
            } else {
                0
            }) + json::pretty_len(Json::Object(json::members(tool.input_schema))) + (if
                tool.output_schema is Some {
                json::pretty_len(Json::Object(json::members(tool.output_schema->0)))
            } else {
                0
            });
            &&& length <= usize::MAX ==> r is Ok && r->Ok_0 == length
            &&& length > usize::MAX ==> r is Err && r->Err_0 is TooLong
        }),
{
}

/// What is made of a source text is what loading it gives.
pub proof fn law_made_of_a_source_text(
    raw: RawOperation,
    schema: GraphqlSchema,
    scalars: Option<&CustomScalarMap>,
    mutation_mode: MutationMode,
    options: ToolOptions,
    annotation_overrides: StringMap<AnnotationOverrides>,
    description_overrides: StringMap<String>,
    analysis: Analysis,
    log: LogLevels,
    r: Result<Option<Operation>, OperationError>,
)
    requires
        call_ensures(
            Operation::from_raw,
            (
                raw,
                &schema,
                scalars,
                mutation_mode,
                options,
                &annotation_overrides,
                &description_overrides,
                analysis,
                log,
            ),
            r,
        ),
    ensures
        loads(
            r,
            raw,
            schema,
            scalars,
            mutation_mode,
            options,
            annotation_overrides@,
            text_map(description_overrides@),
            analysis,
            log,
        ),
{
}

/// What is made of a parsed operation is never an error, and is made of that operation.
pub proof fn law_made_of_a_parsed_operation(
    operation: OperationDef,
    comments: Option<String>,
    raw: RawOperation,
    schema: GraphqlSchema,
    scalars: Option<&CustomScalarMap>,
    options: ToolOptions,
    annotation_overrides: StringMap<AnnotationOverrides>,
    description_overrides: StringMap<String>,
    analysis: Analysis,
    r: Result<Operation, OperationError>,
)
    requires
        call_ensures(
            Operation::from_parsed,
            (
                &operation,
                comments,
                raw,
                &schema,
                scalars,
                options,
                &annotation_overrides,
                &description_overrides,
                analysis,
            ),
            r,
        ),
    ensures
        r is Ok,
        is_made_of(
            r->Ok_0,
            operation@,
            text_of(comments),
            raw,
            schema,
            scalars,
            options,
            annotation_overrides@,
            text_map(description_overrides@),
            analysis,
        ),
{
}

/// An operation gives back what it was loaded from.
pub proof fn law_loaded_from(operation: Operation, r: RawOperation)
    requires
        call_ensures(Operation::into_inner, (operation,), r),
    ensures
        r == operation.inner,
{
}

/// A copy of an operation says the same, part by part.
pub proof fn law_copies(operation: Operation, r: Operation)
    requires
        call_ensures(<Operation as Clone>::clone, (&operation,), r),
    ensures
        r.tool.same(operation.tool),
        r.inner.same(operation.inner),
        r.operation_name@ == operation.operation_name@,
        text_of(r.stripped_source_text) == text_of(operation.stripped_source_text),
        tree_view(r.private_fields) == tree_view(operation.private_fields),
{
}

} // verus!
