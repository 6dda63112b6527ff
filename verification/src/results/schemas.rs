//! What the functions that build JSON Schemas return.

use crate::document::OperationDef;
use crate::graphql::{ExtendedType, GraphqlSchema, GraphqlType, InputObjectType, TypeView};
use crate::json::{self, arranged, Json, Object, Ordered};
use crate::operation::comments::text_map;
use crate::operation::input_schema::{
    ensure_properties_exists, get_json_schema, law_properties_are_ensured,
    law_schema_of_the_variables, members_of, non_null_names, open_variables, property_list,
    texts_map, type_names, Docs,
};
use crate::schema_walker::definitions::referred;
use crate::schema_walker::keywords::{law_types_that_name_null, meets};
use crate::schema_walker::layout::{collected_layout, definition_layout};
use crate::schema_walker::nullable::{
    accepts_null, accepts_null_itself, allows_null, already_allows_null, no_references, nullable,
    type_includes_null,
};
use crate::schema_walker::shape::{
    description_entry, is_built_in_name, is_defined_name, law_definitions_are_the_needed_ones,
    law_nullable_in_order, law_order_of_definitions, law_required_fields_of_definitions,
    law_schema_of_a_list, law_schema_of_a_name, law_schema_of_a_nullable_name, or_null,
};
use crate::schema_walker::walk::{name_to_schema, scalars_of, type_to_schema, CustomScalarMap};
use crate::string_map::StringMap;
use crate::text::text_of;
use serde_json::Value;
use vstd::prelude::*;

verus! {

/// The schema of a name is one keyword and the description: the JSON type of a type that every
/// schema has, a reference where there is a definition or one is made, else no keyword.
pub proof fn law_built_schema_of_a_name(
    name: &str,
    schema: GraphqlSchema,
    cache: &mut Object,
    scalars: Option<&CustomScalarMap>,
    description: Option<String>,
    r: Value,
)
    requires
        call_ensures(name_to_schema, (name, &schema, cache, scalars, &description), r),
    ensures
        ({
            let known = json::members(*old(cache)).contains_key(name@) || is_defined_name(
                schema.types@,
                name@,
            );
            json::ordered(r) == Ordered::Object(
                (if name@ == "String"@ || name@ == "ID"@ {
                    seq![("type"@, Ordered::String("string"@))]
                } else if name@ == "Float"@ {
                    seq![("type"@, Ordered::String("number"@))]
                } else if name@ == "Int"@ {
                    seq![("type"@, Ordered::String("integer"@))]
                } else if name@ == "Boolean"@ {
                    seq![("type"@, Ordered::String("boolean"@))]
                } else if known {
                    seq![("$ref"@, Ordered::String("#/definitions/"@ + name@))]
                } else {
                    Seq::empty()
                }) + description_entry(text_of(description)),
            )
        }),
{
    law_schema_of_a_name(
        schema.types@,
        json::members(*old(cache)),
        name@,
        text_of(description),
    );
}

/// The schema of a nullable named type is that of its non-null form or null; only where nothing
/// is known of the type are the two the same.
pub proof fn law_built_schemas_of_a_named_type(
    name: String,
    nullable_name: String,
    schema: GraphqlSchema,
    cache: &mut Object,
    other: &mut Object,
    scalars: Option<&CustomScalarMap>,
    description: Option<String>,
    strict: Value,
    loose: Value,
)
    requires
        call_ensures(
            type_to_schema,
            (&GraphqlType::NonNullNamed(name), &schema, cache, scalars, &description),
            strict,
        ),
        call_ensures(
            type_to_schema,
            (&GraphqlType::Named(nullable_name), &schema, other, scalars, &description),
            loose,
        ),
        name@ == nullable_name@,
        json::members(*old(cache)) == json::members(*old(other)),
    ensures
        ({
            let known = is_built_in_name(name@) || json::members(*old(cache)).contains_key(name@)
                || is_defined_name(schema.types@, name@);
            &&& known ==> json::ordered(loose) == or_null(json::ordered(strict))
            &&& !known ==> json::ordered(loose) == json::ordered(strict)
        }),
{
    law_schema_of_a_nullable_name(
        schema.types@,
        json::members(*old(cache)),
        name@,
        text_of(description),
    );
}

/// The schema of a non-null list tells its type and the schema of its items as it is written; that
/// of a nullable list is the same or null.
pub proof fn law_built_schemas_of_a_list(
    item: GraphqlType,
    schema: GraphqlSchema,
    cache: &mut Object,
    other: &mut Object,
    third: &mut Object,
    scalars: Option<&CustomScalarMap>,
    description: Option<String>,
    items: Value,
    strict: Value,
    loose: Value,
)
    requires
        call_ensures(type_to_schema, (&item, &schema, cache, scalars, &description), items),
        call_ensures(
            type_to_schema,
            (&GraphqlType::NonNullList(Box::new(item)), &schema, other, scalars, &description),
            strict,
        ),
        call_ensures(
            type_to_schema,
            (&GraphqlType::List(Box::new(item)), &schema, third, scalars, &description),
            loose,
        ),
        json::members(*old(cache)) == json::members(*old(other)),
        json::members(*old(cache)) == json::members(*old(third)),
    ensures
        json::ordered(strict) == Ordered::Object(
            seq![
                ("type"@, Ordered::String("array"@)),
                ("items"@, arranged(json::ordered(items))),
            ],
        ),
        json::ordered(loose) == or_null(json::ordered(strict)),
{
    let names = referred(schema.types@, json::members(*old(cache)));
    law_schema_of_a_list(names, item.view(), text_of(description));
    assert(GraphqlType::NonNullList(Box::new(item)).view() == TypeView::NonNullList(
        Box::new(item.view()),
    ));
    assert(GraphqlType::List(Box::new(item)).view() == TypeView::List(
        Box::new(item.view()),
    ));
}

/// Building the schema of a type keeps the definitions that are there and makes those that are
/// needed: of the type, and of the types of the fields of each input object that gets one.
pub proof fn law_made_definitions(
    ty: GraphqlType,
    schema: GraphqlSchema,
    cache: &mut Object,
    scalars: Option<&CustomScalarMap>,
    description: Option<String>,
    r: Value,
    name: Seq<char>,
)
    requires
        call_ensures(type_to_schema, (&ty, &schema, cache, scalars, &description), r),
    ensures
        ({
            let types = schema.types@;
            let before = json::members(*old(cache));
            let after = json::members(*final(cache));
            let needed = ty.view().inner_name() == name || exists|from: Seq<char>, i: int|
                #![trigger types[from]->InputObject_0.fields@[i]]
                after.contains_key(from) && !before.contains_key(from)
                    && types[from] is InputObject && 0 <= i
                    < types[from]->InputObject_0.fields@.len()
                    && types[from]->InputObject_0.fields@[i].ty.view().inner_name() == name;
            &&& before.contains_key(name) ==> after.contains_key(name) && after[name]
                == before[name]
            &&& !before.contains_key(name) ==> (after.contains_key(name) <==> needed
                && is_defined_name(types, name))
        }),
{
    law_definitions_are_the_needed_ones(
        schema.types@,
        scalars_of(scalars),
        json::members(*old(cache)),
        set![ty.view().inner_name()],
        name,
    );
}

/// In every input object definition that is made, a field's name is required if and only if the
/// field's type is non-null, a list or not, and it has no default.
pub proof fn law_made_definitions_require_their_fields(
    ty: GraphqlType,
    schema: GraphqlSchema,
    cache: &mut Object,
    scalars: Option<&CustomScalarMap>,
    description: Option<String>,
    r: Value,
    name: Seq<char>,
    input: InputObjectType,
    field: Seq<char>,
)
    requires
        call_ensures(type_to_schema, (&ty, &schema, cache, scalars, &description), r),
        json::members(*final(cache)).contains_key(name),
        !json::members(*old(cache)).contains_key(name),
        schema.types@[name] == ExtendedType::InputObject(input),
    ensures
        ({
            let made = json::members(*final(cache))[name];
            let required = exists|i: int|
                0 <= i < input.fields@.len() && (#[trigger] input.fields@[i]).name@ == field
                    && !input.fields@[i].has_default && (input.fields@[i].ty is NonNullNamed
                    || input.fields@[i].ty is NonNullList);
            &&& made is Object
            &&& made->Object_0.contains_key("required"@) ==> made->Object_0["required"@] is Array
            &&& required <==> made->Object_0.contains_key("required"@)
                && made->Object_0["required"@]->Array_0.contains(Json::String(field))
        }),
{
    law_required_fields_of_definitions(
        schema.types@,
        scalars_of(scalars),
        json::members(*old(cache)),
        set![ty.view().inner_name()],
        name,
        input,
        field,
    );
}

/// A name whose definition is there, or that gets none, adds nothing to the definitions. Any other
/// adds its definition at the end, and behind it those that the types of its fields lead to, in
/// order.
pub proof fn law_made_definitions_are_in_order(
    name: &str,
    schema: GraphqlSchema,
    cache: &mut Object,
    scalars: Option<&CustomScalarMap>,
    description: Option<String>,
    r: Value,
)
    requires
        call_ensures(name_to_schema, (name, &schema, cache, scalars, &description), r),
    ensures
        ({
            let types = schema.types@;
            let entries = json::ordered_members(*old(cache));
            let met = exists|i: int| 0 <= i < entries.len() && (#[trigger] entries[i]).0 == name@;
            let own = definition_layout(
                types,
                scalars_of(scalars),
                referred(types, json::plain_members(entries)),
                name@,
            );
            let fields = match types[name@] {
                ExtendedType::InputObject(ty) => Seq::new(
                    ty.fields@.len(),
                    |i: int| ty.fields@[i].ty.view().inner_name(),
                ),
                _ => Seq::empty(),
            };
            json::ordered_members(*final(cache)) == if met || !is_defined_name(types, name@) {
                entries
            } else {
                collected_layout(
                    types,
                    scalars_of(scalars),
                    entries.push((name@, own)),
                    fields,
                )
            }
        }),
{
    let types = schema.types@;
    let entries = json::ordered_members(*old(cache));
    let none: Seq<Seq<char>> = Seq::empty();
    schema.types.lemma_finite();
    law_order_of_definitions(types, scalars_of(scalars), entries, name@, none);
    assert(seq![name@] + none =~= seq![name@]);
    let fields = match types[name@] {
        ExtendedType::InputObject(ty) => Seq::new(
            ty.fields@.len(),
            |i: int| ty.fields@[i].ty.view().inner_name(),
        ),
        _ => Seq::empty(),
    };
    assert(fields + none =~= fields);
}

/// A schema that rejects null becomes the union of itself, as it is written inside another, and
/// null. One that accepts null stays as it is.
pub proof fn law_made_nullable(inner: Value, r: Value)
    requires
        call_ensures(nullable, (inner,), r),
        json::ordered(inner) is Object,
    ensures
        accepts_null(json::json(inner), |target: Seq<char>| false) ==> json::ordered(r)
            == json::ordered(inner),
        !accepts_null(json::json(inner), |target: Seq<char>| false) ==> json::ordered(r) == or_null(
            json::ordered(inner),
        ),
{
    json::lemma_json(inner);
    law_nullable_in_order(json::ordered(inner));
    let none = |target: Seq<char>| false;
    assert(none =~= no_references());
}

/// What is said of whether a schema accepts null is what its keywords say.
pub proof fn law_null_is_found_valid(schema: Value, itself: bool, seen: bool, ty: Value, names: bool)
    requires
        call_ensures(accepts_null_itself, (&schema,), itself),
        call_ensures(already_allows_null, (&schema,), seen),
        call_ensures(type_includes_null, (&ty,), names),
    ensures
        itself == accepts_null(json::json(schema), |target: Seq<char>| false),
        seen == allows_null(json::json(schema)),
        names == meets("type"@, json::json(ty), |target: Seq<char>| false),
{
    let none = |target: Seq<char>| false;
    assert(none =~= no_references());
    law_types_that_name_null(json::json(ty));
}

/// The JSON Schema of an operation's variables: an object with a property for each open variable,
/// in order, with the names of the non-null ones required, and with the definitions that their
/// types lead to.
pub proof fn law_built_schema_of_the_variables(
    operation: OperationDef,
    arguments: StringMap<Vec<String>>,
    comments: StringMap<String>,
    schema: GraphqlSchema,
    scalars: Option<&CustomScalarMap>,
    given: Option<&Object>,
    r: Object,
)
    requires
        call_ensures(
            get_json_schema,
            (&operation, &arguments, &comments, &schema, scalars, given),
            r,
        ),
        ({
            let open = open_variables(operation@.variables, members_of(given));
            forall|i: int, j: int|
                0 <= i < j < open.len() ==> (#[trigger] open[i]).name != (#[trigger] open[j]).name
        }),
    ensures
        ({
            let open = open_variables(operation@.variables, members_of(given));
            let docs = Docs { comments: text_map(comments@), arguments: texts_map(arguments@) };
            let required = non_null_names(open);
            let definitions = collected_layout(
                schema.types@,
                scalars_of(scalars),
                Seq::empty(),
                type_names(open),
            );
            json::ordered_members(r) == seq![
                ("type"@, Ordered::String("object"@)),
                ("properties"@, Ordered::Object(property_list(schema.types@, docs, open))),
            ] + (if required.len() == 0 {
                Seq::empty()
            } else {
                seq![("required"@, Ordered::Array(required))]
            }) + (if definitions.len() == 0 {
                Seq::empty()
            } else {
                seq![("definitions"@, Ordered::Object(definitions))]
            })
        }),
{
    let open = open_variables(operation@.variables, members_of(given));
    let docs = Docs { comments: text_map(comments@), arguments: texts_map(arguments@) };
    law_schema_of_the_variables(schema.types@, scalars_of(scalars), docs, open);
}

/// The schema of an object without properties gets an empty object of them; any other value is
/// left as it is.
pub proof fn law_ensured_properties(schema: &mut Value)
    requires
        call_ensures(ensure_properties_exists, (schema,), ()),
    ensures
        ({
            let before = json::json(*old(schema));
            let after = json::json(*final(schema));
            let m = before->Object_0;
            let lacking = before is Object && m.contains_key("type"@) && m["type"@]
                == Json::String("object"@) && !(m.contains_key("properties"@)
                && m["properties"@] is Object);
            &&& lacking ==> after == Json::Object(
                m.insert("properties"@, Json::Object(Map::empty())),
            )
            &&& !lacking ==> after == before
        }),
{
    let before = json::json(*old(schema));
    law_properties_are_ensured(before->Object_0, before, Seq::empty());
}

} // verus!
