//! The description of an operation that becomes a tool.

use crate::document::{selection_views, OperationDef, OperationView};
use crate::graphql::{
    ExtendedType, FieldDefinition, GraphqlSchema, GraphqlType, ObjectType, OperationType,
    TypeView,
};
use crate::operation::comments::{comment_words, extract_and_format_comments};
use crate::shaken::{ShakenType, TypeKind};
use crate::text::{join, joined, law_joined, same_text, text_of, views};
use vstd::prelude::*;

verus! {

/// What is said of the type of a returned value.
pub open spec fn type_words(ty: TypeView) -> Seq<char> {
    "The returned value "@ + (if ty.non_null() {
        Seq::empty()
    } else {
        "is optional and "@
    }) + (if ty.list() {
        "is an array of type"@
    } else {
        "has type"@
    }) + " `"@ + ty.inner_name() + "`"@
}

/// What is said of the type of a returned value.
pub fn type_description(ty: &GraphqlType) -> (r: String)
    ensures
        r@ == type_words(ty.view()),
{
    let mut r = "The returned value ".to_owned();
    if !ty.is_non_null() {
        r.append("is optional and ");
    }
    if ty.is_list() {
        r.append("is an array of type");
    } else {
        r.append("has type");
    }
    r.append(" `");
    r.append(ty.inner_named_type().as_str());
    r.append("`");
    assert(r@ =~= type_words(ty.view()));
    r
}

/// The fields of the root type for a kind of operation, where it is an object type.
pub open spec fn root_fields(schema: GraphqlSchema, operation_type: OperationType) -> Option<
    Seq<FieldDefinition>,
> {
    match schema.root(operation_type) {
        Some(root) => if schema.types@.contains_key(root@) {
            match schema.types@[root@] {
                ExtendedType::Object(ty) => Some(ty.fields@),
                _ => None,
            }
        } else {
            None
        },
        None => None,
    }
}

/// What is said of the first field of that name: its description and its type.
pub open spec fn field_words(fields: Seq<FieldDefinition>, name: Seq<char>) -> Seq<char>
    decreases fields.len(),
{
    if fields.len() == 0 {
        Seq::empty()
    } else if fields[0].name@ == name {
        match fields[0].description {
            Some(description) => description@ + "\n"@ + type_words(fields[0].ty.view()),
            None => type_words(fields[0].ty.view()),
        }
    } else {
        field_words(fields.drop_first(), name)
    }
}

/// What is said of the fields that are selected, in order.
pub open spec fn selection_words(
    fields: Seq<FieldDefinition>,
    selections: Seq<Option<Seq<char>>>,
) -> Seq<Seq<char>> {
    selections.filter(|selection: Option<Seq<char>>| selection is Some).map_values(
        |selection: Option<Seq<char>>| field_words(fields, selection->0),
    )
}

/// What is said of the root fields that an operation selects.
pub open spec fn operation_words(schema: GraphqlSchema, operation: OperationView) -> Seq<char> {
    match root_fields(schema, operation.operation_type) {
        Some(fields) => joined(selection_words(fields, operation.selections), "\n---\n"@),
        None => Seq::empty(),
    }
}

/// Whether a name is that of the root type for a kind of operation.
pub open spec fn is_root(
    schema: GraphqlSchema,
    operation_type: OperationType,
    name: Seq<char>,
) -> bool {
    match schema.root(operation_type) {
        Some(root) => root@ == name,
        None => false,
    }
}

/// Whether a type is told of: it is not built in, it is no input object, and it is neither
/// the root type of the operation nor that of queries.
pub open spec fn tells_of(
    schema: GraphqlSchema,
    operation_type: OperationType,
    ty: ShakenType,
) -> bool {
    &&& !ty.built_in
    &&& ty.kind != TypeKind::InputObject
    &&& !is_root(schema, operation_type, ty.name@)
    &&& !is_root(schema, OperationType::Query, ty.name@)
}

/// The definitions of the types that are told of, in order.
pub open spec fn type_texts(
    schema: GraphqlSchema,
    operation_type: OperationType,
    types: Seq<ShakenType>,
) -> Seq<Seq<char>> {
    types.filter(|ty: ShakenType| tells_of(schema, operation_type, ty)).map_values(
        |ty: ShakenType| ty.sdl@,
    )
}

/// The definitions of the types that are told of, after a rule where there are any.
pub open spec fn type_lines(
    schema: GraphqlSchema,
    operation_type: OperationType,
    types: Seq<ShakenType>,
) -> Seq<Seq<char>> {
    let texts = type_texts(schema, operation_type, types);
    if texts.len() > 0 {
        seq!["---"@] + texts
    } else {
        Seq::empty()
    }
}

/// The description of an operation: the words of its comment, else what the schema says of
/// the fields that it selects and of the types that it uses.
pub open spec fn operation_description(
    comments: Option<Seq<char>>,
    types: Seq<ShakenType>,
    schema: GraphqlSchema,
    operation: OperationView,
    disable_type_description: bool,
    disable_schema_description: bool,
) -> Seq<char> {
    match comment_words(comments) {
        Some(words) => words,
        None => joined(
            (if disable_type_description {
                Seq::empty()
            } else {
                seq![operation_words(schema, operation)]
            }) + (if disable_schema_description {
                Seq::empty()
            } else {
                type_lines(schema, operation.operation_type, types)
            }),
            "\n"@,
        ),
    }
}

/// What is said of the first field of that name.
fn field_description(fields: &Vec<FieldDefinition>, name: &str) -> (r: String)
    ensures
        r@ == field_words(fields@, name@),
{
    let n: usize = fields.len();
    assert(fields@.skip(0) =~= fields@);
    for i in 0..n
        invariant
            n == fields@.len(),
            field_words(fields@, name@) == field_words(fields@.skip(i as int), name@),
    {
        let field = &fields[i];
        assert(fields@.skip(i as int)[0] == *field);
        if same_text(field.name.as_str(), name) {
            let words = type_description(&field.ty);
            return match &field.description {
                Some(description) => {
                    let mut r = description.clone();
                    r.append("\n");
                    r.append(words.as_str());
                    r
                },
                None => words,
            };
        }
        assert(fields@.skip(i as int).drop_first() =~= fields@.skip(i + 1));
    }
    let r = String::new();
    assert(r@ =~= Seq::empty());
    r
}

/// What is said of the root fields that an operation selects.
fn selection_description(schema: &GraphqlSchema, operation: &OperationDef) -> (r: String)
    ensures
        r@ == operation_words(*schema, operation@),
{
    let root = match schema.root_operation(operation.operation_type) {
        Some(root) => root,
        None => {
            let r = String::new();
            assert(r@ =~= Seq::empty());
            return r;
        },
    };
    let fields = match schema.types.get(root.as_str()) {
        Some(ExtendedType::Object(ty)) => &ty.fields,
        _ => {
            let r = String::new();
            assert(r@ =~= Seq::empty());
            return r;
        },
    };
    let mut words: Vec<String> = Vec::new();
    let ghost all = selection_views(operation.selections@);
    let n: usize = operation.selections.len();
    proof {
        reveal(Seq::filter);
        assert(selection_words(fields@, all.take(0)) =~= Seq::empty());
    }
    for i in 0..n
        invariant
            n == operation.selections@.len(),
            all == selection_views(operation.selections@),
            views(words@) =~= selection_words(fields@, all.take(i as int)),
    {
        let ghost before = words@;
        proof {
            reveal(Seq::filter);
            assert(all.take(i + 1).drop_last() =~= all.take(i as int));
            assert(all.take(i + 1).last() == all[i as int]);
        }
        if let Some(name) = &operation.selections[i] {
            words.push(field_description(fields, name.as_str()));
            assert(views(words@) =~= views(before).push(field_words(fields@, name@)));
            assert(selection_words(fields@, all.take(i + 1)) =~= selection_words(
                fields@,
                all.take(i as int),
            ).push(field_words(fields@, name@)));
        }
    }
    assert(all.take(n as int) =~= all);
    join(&words, "\n---\n")
}

/// Whether a type is told of.
fn is_told_of(schema: &GraphqlSchema, operation_type: OperationType, ty: &ShakenType) -> (r: bool)
    ensures
        r == tells_of(*schema, operation_type, *ty),
{
    if ty.built_in || ty.kind == TypeKind::InputObject {
        return false;
    }
    if let Some(root) = schema.root_operation(operation_type) {
        if same_text(root.as_str(), ty.name.as_str()) {
            return false;
        }
    }
    match schema.root_operation(OperationType::Query) {
        Some(root) => !same_text(root.as_str(), ty.name.as_str()),
        None => true,
    }
}

/// The description of an operation. `shaken_types` are the types that it uses.
pub fn tool_description(
    comments: Option<String>,
    shaken_types: &Vec<ShakenType>,
    graphql_schema: &GraphqlSchema,
    operation: &OperationDef,
    disable_type_description: bool,
    disable_schema_description: bool,
) -> (r: String)
    ensures
        r@ == operation_description(
            text_of(comments),
            shaken_types@,
            *graphql_schema,
            operation@,
            disable_type_description,
            disable_schema_description,
        ),
{
    if let Some(words) = extract_and_format_comments(comments) {
        return words;
    }
    let mut lines: Vec<String> = Vec::new();
    if !disable_type_description {
        lines.push(selection_description(graphql_schema, operation));
    }
    let ghost first = views(lines@);
    assert(first =~= if disable_type_description {
        Seq::empty()
    } else {
        seq![operation_words(*graphql_schema, operation@)]
    });
    if !disable_schema_description {
        let operation_type = operation.operation_type;
        let n: usize = shaken_types.len();
        let ghost all = shaken_types@;
        proof {
            reveal(Seq::filter);
            assert(type_lines(*graphql_schema, operation_type, all.take(0)) =~= Seq::empty());
            assert(views(lines@) =~= first + type_lines(
                *graphql_schema,
                operation_type,
                all.take(0),
            ));
        }
        let mut told: bool = false;
        for i in 0..n
            invariant
                n == all.len(),
                all == shaken_types@,
                told == (type_texts(*graphql_schema, operation_type, all.take(i as int)).len() > 0),
                views(lines@) =~= first + type_lines(
                    *graphql_schema,
                    operation_type,
                    all.take(i as int),
                ),
        {
            let ty = &shaken_types[i];
            let ghost before = lines@;
            let ghost texts = type_texts(*graphql_schema, operation_type, all.take(i as int));
            proof {
                reveal(Seq::filter);
                assert(all.take(i + 1).drop_last() =~= all.take(i as int));
                assert(all.take(i + 1).last() == *ty);
            }
            if is_told_of(graphql_schema, operation_type, ty) {
                assert(type_texts(*graphql_schema, operation_type, all.take(i + 1)) =~= texts.push(
                    ty.sdl@,
                ));
                if !told {
                    lines.push("---".to_owned());
                    told = true;
                    assert(texts =~= Seq::empty());
                    assert(views(lines@) =~= views(before).push("---"@));
                }
                let ghost ruled = lines@;
                lines.push(ty.sdl.clone());
                assert(views(lines@) =~= views(ruled).push(ty.sdl@));
            }
        }
        assert(all.take(n as int) =~= all);
    }
    join(&lines, "\n")
}

/// What is said of the type of a returned value, for each kind of type.
pub proof fn law_type_words(name: Seq<char>, item: TypeView)
    ensures
        type_words(TypeView::Named(name))
            == "The returned value is optional and has type `"@ + name + "`"@,
        type_words(TypeView::NonNullNamed(name)) == "The returned value has type `"@ + name
            + "`"@,
        type_words(TypeView::List(Box::new(item)))
            == "The returned value is optional and is an array of type `"@ + item.inner_name()
            + "`"@,
        type_words(TypeView::NonNullList(Box::new(item)))
            == "The returned value is an array of type `"@ + item.inner_name() + "`"@,
{
    reveal_strlit("The returned value ");
    reveal_strlit("is optional and ");
    reveal_strlit("is an array of type");
    reveal_strlit("has type");
    reveal_strlit(" `");
    reveal_strlit("The returned value is optional and has type `");
    reveal_strlit("The returned value has type `");
    reveal_strlit("The returned value is optional and is an array of type `");
    reveal_strlit("The returned value is an array of type `");
    let a = "The returned value "@;
    let b = "is optional and "@;
    let c = "is an array of type"@;
    let d = "has type"@;
    let e = " `"@;
    let none: Seq<char> = Seq::empty();
    assert(a + b + d + e =~= "The returned value is optional and has type `"@);
    assert(a + none + d + e =~= "The returned value has type `"@);
    assert(a + b + c + e =~= "The returned value is optional and is an array of type `"@);
    assert(a + none + c + e =~= "The returned value is an array of type `"@);
}

/// What is said of a selected field is said of the first root field of that name: its
/// description, if it has one, and on the next line its type. Of a field that the root type
/// lacks nothing is said.
pub proof fn law_field_words(fields: Seq<FieldDefinition>, name: Seq<char>, i: int)
    ensures
        (forall|j: int| 0 <= j < fields.len() ==> (#[trigger] fields[j]).name@ != name)
            ==> field_words(fields, name) == Seq::<char>::empty(),
        0 <= i < fields.len() && fields[i].name@ == name && (forall|j: int|
            0 <= j < i ==> (#[trigger] fields[j]).name@ != name) ==> field_words(fields, name)
            == match fields[i].description {
            Some(description) => description@ + "\n"@ + type_words(fields[i].ty.view()),
            None => type_words(fields[i].ty.view()),
        },
    decreases fields.len(),
{
    if fields.len() > 0 && fields[0].name@ != name {
        let rest = fields.drop_first();
        law_field_words(rest, name, i - 1);
        assert(forall|j: int| 0 <= j < rest.len() ==> #[trigger] rest[j] == fields[j + 1]);
        if forall|j: int| 0 <= j < fields.len() ==> (#[trigger] fields[j]).name@ != name {
            assert forall|j: int| 0 <= j < rest.len() implies (#[trigger] rest[j]).name@
                != name by {
                assert(fields[j + 1].name@ != name);
            }
        }
        if 0 <= i < fields.len() && fields[i].name@ == name && (forall|j: int|
            0 <= j < i ==> (#[trigger] fields[j]).name@ != name) {
            assert forall|j: int| 0 <= j < i - 1 implies (#[trigger] rest[j]).name@ != name by {
                assert(fields[j + 1].name@ != name);
            }
        }
    }
}

/// Each field that an operation selects at the top is told of in turn, with a rule between
/// neighbours; a fragment is not.
pub proof fn law_selected_fields_are_told_of(
    schema: GraphqlSchema,
    before: OperationView,
    after: OperationView,
    selection: Option<Seq<char>>,
    root: String,
    ty: ObjectType,
)
    requires
        match before.operation_type {
            OperationType::Query => schema.query == Some(root),
            OperationType::Mutation => schema.mutation == Some(root),
            OperationType::Subscription => schema.subscription == Some(root),
        },
        schema.types@.contains_key(root@),
        schema.types@[root@] == ExtendedType::Object(ty),
        after.operation_type == before.operation_type,
        after.selections == before.selections.push(selection),
    ensures
        before.selections.len() == 0 ==> operation_words(schema, before) == Seq::<char>::empty(),
        operation_words(schema, after) == match selection {
            None => operation_words(schema, before),
            Some(name) => if exists|j: int|
                0 <= j < before.selections.len() && (#[trigger] before.selections[j]) is Some {
                operation_words(schema, before) + "\n---\n"@ + field_words(ty.fields@, name)
            } else {
                field_words(ty.fields@, name)
            },
        },
{
    let fields = ty.fields@;
    let known = |s: Option<Seq<char>>| s is Some;
    let told = selection_words(fields, before.selections);
    reveal(Seq::filter);
    assert(after.selections.drop_last() =~= before.selections);
    assert(after.selections.last() == selection);
    lemma_some_selected(before.selections);
    assert(before.selections.len() == 0 ==> told =~= Seq::empty());
    match selection {
        None => {
            assert(after.selections.filter(known) =~= before.selections.filter(known));
        },
        Some(name) => {
            assert(after.selections.filter(known) =~= before.selections.filter(known).push(
                selection,
            ));
            assert(selection_words(fields, after.selections) =~= told.push(
                field_words(fields, name),
            ));
            assert(told.push(field_words(fields, name)).drop_last() =~= told);
        },
    }
}

proof fn lemma_some_selected(selections: Seq<Option<Seq<char>>>)
    ensures
        selections.filter(|s: Option<Seq<char>>| s is Some).len() > 0 <==> exists|j: int|
            0 <= j < selections.len() && (#[trigger] selections[j]) is Some,
    decreases selections.len(),
{
    reveal(Seq::filter);
    if selections.len() > 0 {
        let front = selections.drop_last();
        lemma_some_selected(front);
        assert(selections[selections.len() - 1] == selections.last());
        if exists|j: int| 0 <= j < front.len() && (#[trigger] front[j]) is Some {
            let j = choose|j: int| 0 <= j < front.len() && (#[trigger] front[j]) is Some;
            assert(selections[j] is Some);
        }
        if exists|j: int| 0 <= j < selections.len() && (#[trigger] selections[j]) is Some {
            let j = choose|j: int| 0 <= j < selections.len() && (#[trigger] selections[j]) is Some;
            if j < front.len() {
                assert(front[j] is Some);
            }
        }
    }
}

/// Without a root type, or where it is no object, nothing is said of the selected fields.
pub proof fn law_nothing_is_said_without_a_root_type(
    schema: GraphqlSchema,
    operation: OperationView,
)
    requires
        ({
            let root = match operation.operation_type {
                OperationType::Query => schema.query,
                OperationType::Mutation => schema.mutation,
                OperationType::Subscription => schema.subscription,
            };
            root is None || !schema.types@.contains_key(root->0@)
                || !(schema.types@[root->0@] is Object)
        }),
    ensures
        operation_words(schema, operation) == Seq::<char>::empty(),
{
}

/// Whether a type that an operation uses is worth telling of, kind by kind: any that is no
/// input object, is not built in and is the root type neither of queries nor of the operation.
pub open spec fn is_worth_telling(
    schema: GraphqlSchema,
    operation_type: OperationType,
    ty: ShakenType,
) -> bool {
    &&& match ty.kind {
        TypeKind::Scalar => true,
        TypeKind::Object => true,
        TypeKind::Interface => true,
        TypeKind::Union => true,
        TypeKind::Enum => true,
        TypeKind::InputObject => false,
    }
    &&& !ty.built_in
    &&& schema.query is Some ==> schema.query->0@ != ty.name@
    &&& operation_type == OperationType::Mutation && schema.mutation is Some
        ==> schema.mutation->0@ != ty.name@
    &&& operation_type == OperationType::Subscription && schema.subscription is Some
        ==> schema.subscription->0@ != ty.name@
}

/// The words of a comment are the description, whatever the schema says.
pub proof fn law_a_comment_is_the_description(
    comments: Option<Seq<char>>,
    types: Seq<ShakenType>,
    schema: GraphqlSchema,
    operation: OperationView,
    disable_type_description: bool,
    disable_schema_description: bool,
)
    requires
        comment_words(comments) is Some,
    ensures
        operation_description(
            comments,
            types,
            schema,
            operation,
            disable_type_description,
            disable_schema_description,
        ) == comment_words(comments)->0,
{
}

/// Without a comment, and where types are not described or the operation uses none, the
/// description is what is said of the selected fields, unless that is switched off.
pub proof fn law_description_starts_with_the_fields(
    comments: Option<Seq<char>>,
    types: Seq<ShakenType>,
    schema: GraphqlSchema,
    operation: OperationView,
    disable_schema_description: bool,
)
    requires
        comment_words(comments) is None,
        disable_schema_description || types.len() == 0,
    ensures
        operation_description(comments, types, schema, operation, false, disable_schema_description)
            == operation_words(schema, operation),
        operation_description(comments, types, schema, operation, true, disable_schema_description)
            == Seq::<char>::empty(),
{
    reveal(Seq::filter);
    let none: Seq<Seq<char>> = Seq::empty();
    let lines = if disable_schema_description {
        none
    } else {
        type_lines(schema, operation.operation_type, types)
    };
    assert(type_texts(schema, operation.operation_type, Seq::empty()) =~= none);
    assert(types.len() == 0 ==> types =~= Seq::empty());
    assert(lines =~= none);
    assert(none + lines =~= none);
    assert(seq![operation_words(schema, operation)] + lines =~= seq![
        operation_words(schema, operation),
    ]);
}

/// Without a comment, and where types are described, the definition of each type that is worth
/// telling of comes at the end of the description, on a line of its own, the first of them after
/// a rule. Any other type leaves the description as it is.
pub proof fn law_types_are_told_of_in_turn(
    comments: Option<Seq<char>>,
    types: Seq<ShakenType>,
    ty: ShakenType,
    schema: GraphqlSchema,
    operation: OperationView,
    disable_type_description: bool,
)
    requires
        comment_words(comments) is None,
    ensures
        ({
            let before = operation_description(
                comments,
                types,
                schema,
                operation,
                disable_type_description,
                false,
            );
            let ruled = exists|j: int|
                0 <= j < types.len() && is_worth_telling(
                    schema,
                    operation.operation_type,
                    #[trigger] types[j],
                );
            operation_description(
                comments,
                types.push(ty),
                schema,
                operation,
                disable_type_description,
                false,
            ) == if !is_worth_telling(schema, operation.operation_type, ty) {
                before
            } else if ruled {
                before + "\n"@ + ty.sdl@
            } else if disable_type_description {
                "---"@ + "\n"@ + ty.sdl@
            } else {
                before + "\n"@ + "---"@ + "\n"@ + ty.sdl@
            }
        }),
{
    let kind = operation.operation_type;
    let first = if disable_type_description {
        Seq::empty()
    } else {
        seq![operation_words(schema, operation)]
    };
    let texts = type_texts(schema, kind, types);
    let lines = type_lines(schema, kind, types);
    let grown = types.push(ty);
    let told = |t: ShakenType| tells_of(schema, kind, t);
    reveal(Seq::filter);
    assert(grown.drop_last() =~= types);
    assert(grown.last() == ty);
    assert(tells_of(schema, kind, ty) == is_worth_telling(schema, kind, ty));
    lemma_some_told(schema, kind, types);
    if is_worth_telling(schema, kind, ty) {
        assert(grown.filter(told) =~= types.filter(told).push(ty));
        assert(type_texts(schema, kind, grown) =~= texts.push(ty.sdl@));
        if texts.len() > 0 {
            assert(type_lines(schema, kind, grown) =~= lines.push(ty.sdl@));
            assert(first + lines.push(ty.sdl@) =~= (first + lines).push(ty.sdl@));
            law_joined(first + lines, ty.sdl@, "\n"@);
        } else {
            assert(texts =~= Seq::empty());
            assert(first + lines =~= first);
            assert(first + type_lines(schema, kind, grown) =~= first.push("---"@).push(ty.sdl@));
            law_joined(first.push("---"@), ty.sdl@, "\n"@);
            law_joined(first, "---"@, "\n"@);
            if disable_type_description {
                assert(first.push("---"@) =~= seq!["---"@]);
            }
        }
    } else {
        assert(grown.filter(told) =~= types.filter(told));
    }
}

proof fn lemma_some_told(
    schema: GraphqlSchema,
    operation_type: OperationType,
    types: Seq<ShakenType>,
)
    ensures
        type_texts(schema, operation_type, types).len() > 0 <==> exists|j: int|
            0 <= j < types.len() && is_worth_telling(schema, operation_type, #[trigger] types[j]),
    decreases types.len(),
{
    reveal(Seq::filter);
    if types.len() > 0 {
        let front = types.drop_last();
        lemma_some_told(schema, operation_type, front);
        assert(types[types.len() - 1] == types.last());
        assert(tells_of(schema, operation_type, types.last()) == is_worth_telling(
            schema,
            operation_type,
            types.last(),
        ));
        if exists|j: int|
            0 <= j < front.len() && is_worth_telling(schema, operation_type, #[trigger] front[j]) {
            let j = choose|j: int|
                0 <= j < front.len() && is_worth_telling(
                    schema,
                    operation_type,
                    #[trigger] front[j],
                );
            assert(is_worth_telling(schema, operation_type, types[j]));
        }
        if exists|j: int|
            0 <= j < types.len() && is_worth_telling(schema, operation_type, #[trigger] types[j]) {
            let j = choose|j: int|
                0 <= j < types.len() && is_worth_telling(
                    schema,
                    operation_type,
                    #[trigger] types[j],
                );
            if j < front.len() {
                assert(is_worth_telling(schema, operation_type, front[j]));
            }
        }
    }
}

} // verus!
