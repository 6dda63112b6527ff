//! What the JSON Schemas of GraphQL types hold, kind by kind.

use crate::graphql::{
    EnumType, EnumValue, ExtendedType, GraphqlType, InputField, InputObjectType, ScalarType,
    TypeView,
};
use crate::json::{self, arranged, no_entries, put, Json, Ordered};
use crate::schema_walker::definitions::{
    basic_type, enum_value_line, own_description, referred, required_json, Scalars,
};
use crate::schema_walker::layout::{
    collected_layout, definition_layout, described_layout, enum_layout, fields_layout, mentions,
    name_entries, names_in, not_null_layout, required_layout, scalar_layout, type_layout,
    Entries,
};
use crate::schema_walker::nullable::{accepts_null, no_references, nullable_layout};
use crate::schema_walker::reachable::{
    collected, field_of, leads_to, lemma_leads_to_missing, lemma_leads_to_trans, mentioned,
    reached, Types,
};
use crate::text::{joined, text_of, text_or_empty};
use serde_json::Value;
use vstd::prelude::*;

verus! {

/// The names of the types that every GraphQL schema has.
pub open spec fn is_built_in_name(name: Seq<char>) -> bool {
    name == "String"@ || name == "ID"@ || name == "Float"@ || name == "Int"@ || name == "Boolean"@
}

/// Whether the schema has an enum, an input object or a custom scalar of that name.
pub open spec fn is_defined_name(types: Types, name: Seq<char>) -> bool {
    !is_built_in_name(name) && types.contains_key(name) && match types[name] {
        ExtendedType::Enum(_) => true,
        ExtendedType::InputObject(_) => true,
        ExtendedType::Scalar(_) => true,
        ExtendedType::Object(_) => false,
        ExtendedType::Interface => false,
        ExtendedType::Union => false,
    }
}

/// The member for a description, where there is one.
pub open spec fn description_entry(description: Option<Seq<char>>) -> Entries {
    match description {
        Some(d) => seq![("description"@, Ordered::String(d))],
        None => Seq::empty(),
    }
}

/// The object with one member.
pub open spec fn one(key: Seq<char>, value: Ordered) -> Ordered {
    Ordered::Object(seq![(key, value)])
}

/// The union of a schema, as it is written inside another, and null.
pub open spec fn or_null(schema: Ordered) -> Ordered {
    one(
        "oneOf"@,
        Ordered::Array(seq![arranged(schema), one("type"@, Ordered::String("null"@))]),
    )
}

/// The words are different.
proof fn lemma_words()
    ensures
        "type"@.len() == 4,
        "type"@[0] == 't',
        "enum"@.len() == 4,
        "enum"@[0] == 'e',
        "$ref"@.len() == 4,
        "$ref"@[0] == '$',
        "not"@.len() == 3,
        "if"@.len() == 2,
        "const"@.len() == 5,
        "const"@[0] == 'c',
        "items"@.len() == 5,
        "items"@[0] == 'i',
        "allOf"@.len() == 5,
        "allOf"@[0] == 'a',
        "allOf"@[1] == 'l',
        "anyOf"@.len() == 5,
        "anyOf"@[0] == 'a',
        "anyOf"@[1] == 'n',
        "oneOf"@.len() == 5,
        "oneOf"@[0] == 'o',
        "description"@.len() == 11,
        "properties"@.len() == 10,
        "required"@.len() == 8,
        "null"@.len() == 4,
        "string"@.len() == 6,
        "number"@.len() == 6,
        "integer"@.len() == 7,
        "boolean"@.len() == 7,
        "array"@.len() == 5,
        "String"@.len() == 6,
        "ID"@.len() == 2,
        "Float"@.len() == 5,
        "Int"@.len() == 3,
        "Boolean"@.len() == 7,
{
    reveal_strlit("type");
    reveal_strlit("enum");
    reveal_strlit("$ref");
    reveal_strlit("not");
    reveal_strlit("if");
    reveal_strlit("const");
    reveal_strlit("items");
    reveal_strlit("allOf");
    reveal_strlit("anyOf");
    reveal_strlit("oneOf");
    reveal_strlit("description");
    reveal_strlit("properties");
    reveal_strlit("required");
    reveal_strlit("null");
    reveal_strlit("string");
    reveal_strlit("number");
    reveal_strlit("integer");
    reveal_strlit("boolean");
    reveal_strlit("array");
    reveal_strlit("String");
    reveal_strlit("ID");
    reveal_strlit("Float");
    reveal_strlit("Int");
    reveal_strlit("Boolean");
}

/// A member of a new name is put at the end.
pub(crate) proof fn lemma_put_new(entries: Entries, key: Seq<char>, value: Ordered)
    requires
        forall|i: int| 0 <= i < entries.len() ==> (#[trigger] entries[i]).0 != key,
    ensures
        put(entries, key, value) == entries.push((key, value)),
{
}

/// What one or two members of different names say.
proof fn lemma_plain_few(a: Seq<char>, x: Ordered, b: Seq<char>, y: Ordered)
    ensures
        json::plain_members(seq![(a, x)]) == Map::<Seq<char>, Json>::empty().insert(
            a,
            json::plain(x),
        ),
        json::plain_members(seq![(a, x), (b, y)]) == Map::<Seq<char>, Json>::empty().insert(
            a,
            json::plain(x),
        ).insert(b, json::plain(y)),
{
    let none: Entries = Seq::empty();
    assert(seq![(a, x)].drop_last() =~= none);
    assert(seq![(a, x), (b, y)].drop_last() =~= seq![(a, x)]);
    assert(json::plain_members(none) =~= Map::empty());
    assert(seq![(a, x)].last() == (a, x));
    assert(json::plain_members(seq![(a, x)]) =~= Map::empty().insert(a, json::plain(x)));
    assert(seq![(a, x), (b, y)].last() == (b, y));
}

/// The schema of a non-null named type is one keyword and the description: the JSON type of a
/// type that every schema has, a reference to the definition where there is one or one is
/// made, and no keyword for any other type.
pub proof fn law_schema_of_a_name(
    types: Types,
    cached: Map<Seq<char>, Json>,
    name: Seq<char>,
    description: Option<Seq<char>>,
)
    ensures
        type_layout(referred(types, cached), TypeView::NonNullNamed(name), description)
            == Ordered::Object(
            (if name == "String"@ || name == "ID"@ {
                seq![("type"@, Ordered::String("string"@))]
            } else if name == "Float"@ {
                seq![("type"@, Ordered::String("number"@))]
            } else if name == "Int"@ {
                seq![("type"@, Ordered::String("integer"@))]
            } else if name == "Boolean"@ {
                seq![("type"@, Ordered::String("boolean"@))]
            } else if cached.contains_key(name) || is_defined_name(types, name) {
                seq![("$ref"@, Ordered::String("#/definitions/"@ + name))]
            } else {
                Seq::empty()
            }) + description_entry(description),
        ),
{
    lemma_words();
    let names = referred(types, cached);
    let entries = name_entries(names, name);
    let none: Entries = Seq::empty();
    if let Some(ty) = basic_type(name) {
        lemma_put_new(none, "type"@, Ordered::String(ty));
        assert(entries =~= seq![("type"@, Ordered::String(ty))]);
    } else if names.contains(name) {
        lemma_put_new(none, "$ref"@, Ordered::String("#/definitions/"@ + name));
        assert(entries =~= seq![("$ref"@, Ordered::String("#/definitions/"@ + name))]);
    }
    if let Some(d) = description {
        lemma_put_new(entries, "description"@, Ordered::String(d));
        assert(entries.push(("description"@, Ordered::String(d))) =~= entries + description_entry(
            description,
        ));
    } else {
        assert(entries + description_entry(description) =~= entries);
    }
}

/// The schema of a nullable named type is that of its non-null form or null. Only where nothing
/// is known of the type is it the same.
pub proof fn law_schema_of_a_nullable_name(
    types: Types,
    cached: Map<Seq<char>, Json>,
    name: Seq<char>,
    description: Option<Seq<char>>,
)
    ensures
        ({
            let strict = type_layout(
                referred(types, cached),
                TypeView::NonNullNamed(name),
                description,
            );
            type_layout(referred(types, cached), TypeView::Named(name), description) == if
                is_built_in_name(name) || cached.contains_key(name) || is_defined_name(
                types,
                name,
            ) {
                or_null(strict)
            } else {
                strict
            }
        }),
{
    lemma_words();
    law_schema_of_a_name(types, cached, name, description);
    let strict = type_layout(referred(types, cached), TypeView::NonNullNamed(name), description);
    let entries = strict->Object_0;
    let m = json::plain_members(entries);
    let none: Entries = Seq::empty();
    assert(json::plain_members(none) =~= Map::empty());
    if is_built_in_name(name) || cached.contains_key(name) || is_defined_name(types, name) {
        let first = entries[0];
        match description {
            Some(d) => {
                lemma_plain_few(first.0, first.1, "description"@, Ordered::String(d));
                assert(entries =~= seq![first, ("description"@, Ordered::String(d))]);
            },
            None => {
                lemma_plain_few(first.0, first.1, first.0, first.1);
                assert(entries =~= seq![first]);
            },
        }
        assert(m.contains_key(first.0) && m[first.0] == json::plain(first.1));
        assert(!accepts_null(json::plain(strict), no_references()));
    } else {
        match description {
            Some(d) => {
                lemma_plain_few("description"@, Ordered::String(d), "description"@, Ordered::Null);
                assert(entries =~= seq![("description"@, Ordered::String(d))]);
            },
            None => {
                assert(entries =~= none);
            },
        }
        assert(accepts_null(json::plain(strict), no_references()));
    }
    law_nullable_in_order(strict);
}

/// A schema that rejects null becomes the union of itself, as it is written inside another, and
/// null. One that accepts null stays as it is, its members in the order that they had.
pub proof fn law_nullable_in_order(schema: Ordered)
    requires
        schema is Object,
    ensures
        !accepts_null(json::plain(schema), no_references())
            ==> nullable_layout(schema) == or_null(schema),
        accepts_null(json::plain(schema), no_references())
            ==> nullable_layout(schema) == schema,
{
    let none: Entries = Seq::empty();
    let null = Ordered::String("null"@);
    lemma_put_new(none, "type"@, null);
    assert(put(no_entries(), "type"@, null) =~= seq![("type"@, null)]);
    let branches = Ordered::Array(seq![arranged(schema), one("type"@, null)]);
    lemma_put_new(none, "oneOf"@, branches);
    assert(put(no_entries(), "oneOf"@, branches) =~= seq![("oneOf"@, branches)]);
}

/// The schema of a type is an object.
proof fn lemma_type_is_object(
    names: Set<Seq<char>>,
    ty: TypeView,
    description: Option<Seq<char>>,
)
    ensures
        type_layout(names, ty, description) is Object,
{
}

/// The schema of a list tells its type and the schema of its items, which is that of the item
/// type with its own nullability. That of a nullable list is the same or null.
pub proof fn law_schema_of_a_list(
    names: Set<Seq<char>>,
    item: TypeView,
    description: Option<Seq<char>>,
)
    ensures
        type_layout(names, TypeView::NonNullList(Box::new(item)), description) == Ordered::Object(
            seq![
                ("type"@, Ordered::String("array"@)),
                ("items"@, arranged(type_layout(names, item, description))),
            ],
        ),
        type_layout(names, TypeView::List(Box::new(item)), description) == or_null(
            type_layout(names, TypeView::NonNullList(Box::new(item)), description),
        ),
{
    lemma_words();
    lemma_type_is_object(names, item, description);
    let none: Entries = Seq::empty();
    let array = Ordered::String("array"@);
    let items = arranged(type_layout(names, item, description));
    lemma_put_new(none, "type"@, array);
    assert(put(no_entries(), "type"@, array) =~= seq![("type"@, array)]);
    lemma_put_new(seq![("type"@, array)], "items"@, items);
    assert(put(seq![("type"@, array)], "items"@, items) =~= seq![
        ("type"@, array),
        ("items"@, items),
    ]);
    let strict = Ordered::Object(seq![("type"@, array), ("items"@, items)]);
    lemma_plain_few("type"@, array, "items"@, items);
    let m = json::plain_members(strict->Object_0);
    assert(m.contains_key("type"@) && m["type"@] == Json::String("array"@));
    assert(!accepts_null(json::plain(strict), no_references()));
    law_nullable_in_order(strict);
}

/// The names of the values of an enum, in order.
pub open spec fn value_names(ty: EnumType) -> Seq<Ordered> {
    Seq::new(ty.values@.len(), |i: int| Ordered::String(ty.values@[i].name@))
}

/// The values of an enum, in order, each with what the schema says of it.
pub open spec fn value_lines(ty: EnumType) -> Seq<Seq<char>> {
    Seq::new(
        ty.values@.len(),
        |i: int|
            match ty.values@[i].description {
                Some(d) => ty.values@[i].name@ + ": "@ + d@,
                None => ty.values@[i].name@ + ": "@,
            },
    )
}

/// What is said of an enum: what the schema says of it, and then its values, each on a line.
pub open spec fn enum_words(ty: EnumType) -> Seq<char> {
    match ty.description {
        Some(d) => d@ + "\n\nValues:\n"@ + joined(value_lines(ty), "\n"@),
        None => "\n\nValues:\n"@ + joined(value_lines(ty), "\n"@),
    }
}

/// The definition of an enum tells its values by name, and in its description each value with
/// what the schema says of it, after what the schema says of the enum.
pub proof fn law_definition_of_an_enum(
    types: Types,
    scalars: Scalars,
    names: Set<Seq<char>>,
    name: Seq<char>,
    ty: EnumType,
)
    requires
        types[name] == ExtendedType::Enum(ty),
    ensures
        definition_layout(types, scalars, names, name) == Ordered::Object(
            seq![
                ("type"@, Ordered::String("string"@)),
                ("enum"@, Ordered::Array(value_names(ty))),
                ("description"@, Ordered::String(enum_words(ty))),
            ],
        ),
{
    lemma_words();
    let none: Entries = Seq::empty();
    assert(ty.values@.map_values(|value: EnumValue| Ordered::String(value.name@)) =~= value_names(
        ty,
    ));
    let lines = ty.values@.map_values(|value: EnumValue| enum_value_line(value));
    assert forall|i: int| 0 <= i < lines.len() implies lines[i] == value_lines(ty)[i] by {
        assert(enum_value_line(ty.values@[i]) =~= value_lines(ty)[i]);
    }
    assert(lines =~= value_lines(ty));
    let a = ("type"@, Ordered::String("string"@));
    let b = ("enum"@, Ordered::Array(value_names(ty)));
    let c = ("description"@, Ordered::String(enum_words(ty)));
    let words = text_or_empty(ty.description) + "\n\nValues:\n"@ + joined(lines, "\n"@);
    assert(words =~= enum_words(ty));
    lemma_put_new(none, a.0, a.1);
    assert(none.push(a) =~= seq![a]);
    lemma_put_new(seq![a], b.0, b.1);
    assert(seq![a].push(b) =~= seq![a, b]);
    lemma_put_new(seq![a, b], c.0, c.1);
    assert(seq![a, b].push(c) =~= seq![a, b, c]);
    assert(definition_layout(types, scalars, names, name) == Ordered::Object(enum_layout(ty)));
    assert(enum_layout(ty) == seq![a, b, c]);
}

/// The schema that everything but null is valid against.
pub open spec fn anything_but_null() -> (Seq<char>, Ordered) {
    ("not"@, one("type"@, Ordered::String("null"@)))
}

/// Without an operator's schema for it, everything but null is valid against the definition of
/// a custom scalar, and the schema describes it.
pub proof fn law_definition_of_an_open_scalar(
    types: Types,
    scalars: Scalars,
    names: Set<Seq<char>>,
    name: Seq<char>,
    ty: ScalarType,
)
    requires
        types[name] == ExtendedType::Scalar(ty),
        scalars is None || !scalars->0.contains_key(name),
    ensures
        definition_layout(types, scalars, names, name) == Ordered::Object(
            seq![anything_but_null()] + description_entry(text_of(ty.description)),
        ),
{
    lemma_words();
    lemma_anything_but_null();
    lemma_described(seq![anything_but_null()], text_of(ty.description));
    assert(definition_layout(types, scalars, names, name) == Ordered::Object(
        scalar_layout(scalars, name, text_of(ty.description)),
    ));
}

proof fn lemma_anything_but_null()
    ensures
        not_null_layout() == seq![anything_but_null()],
{
    let none: Entries = Seq::empty();
    let null = Ordered::String("null"@);
    lemma_put_new(none, "type"@, null);
    assert(none.push(("type"@, null)) =~= seq![("type"@, null)]);
    lemma_put_new(none, "not"@, one("type"@, null));
    assert(none.push(anything_but_null()) =~= seq![anything_but_null()]);
}

/// What is valid against the definition of a custom scalar for which an operator has a schema
/// is valid against that schema and is not null. The schema stands there whole. The operator's
/// description comes before that of the GraphQL schema.
pub proof fn law_definition_of_a_mapped_scalar(
    types: Types,
    map: Map<Seq<char>, Value>,
    names: Set<Seq<char>>,
    name: Seq<char>,
    ty: ScalarType,
)
    requires
        types[name] == ExtendedType::Scalar(ty),
        map.contains_key(name),
    ensures
        ({
            let own = map[name];
            let whole = match json::ordered(own) {
                Ordered::Object(_) => arranged(json::ordered(own)),
                other => other,
            };
            let described = json::json(own) is Object
                && json::json(own)->Object_0.contains_key("description"@)
                && json::json(own)->Object_0["description"@] is String;
            definition_layout(types, Some(map), names, name) == Ordered::Object(
                seq![
                    (
                        "allOf"@,
                        Ordered::Array(seq![whole, Ordered::Object(seq![anything_but_null()])]),
                    ),
                ] + description_entry(
                    if described {
                        Some(json::json(own)->Object_0["description"@]->String_0)
                    } else {
                        text_of(ty.description)
                    },
                ),
            )
        }),
{
    lemma_words();
    lemma_anything_but_null();
    let own = map[name];
    let none: Entries = Seq::empty();
    let whole = json::written(json::ordered(own));
    let all = Ordered::Array(seq![whole, Ordered::Object(seq![anything_but_null()])]);
    lemma_put_new(none, "allOf"@, all);
    assert(none.push(("allOf"@, all)) =~= seq![("allOf"@, all)]);
    let description = match own_description(json::json(own)) {
        Some(d) => Some(d),
        None => text_of(ty.description),
    };
    lemma_described(seq![("allOf"@, all)], description);
    assert(definition_layout(types, Some(map), names, name) == Ordered::Object(
        scalar_layout(Some(map), name, text_of(ty.description)),
    ));
}

/// A description goes to the end.
proof fn lemma_described(entries: Entries, description: Option<Seq<char>>)
    requires
        forall|i: int| 0 <= i < entries.len() ==> (#[trigger] entries[i]).0.len() != 11,
    ensures
        described_layout(entries, description) == entries + description_entry(description),
{
    lemma_words();
    if let Some(d) = description {
        lemma_put_new(entries, "description"@, Ordered::String(d));
        assert(entries.push(("description"@, Ordered::String(d))) =~= entries + description_entry(
            description,
        ));
    } else {
        assert(entries + description_entry(description) =~= entries);
    }
}

/// Whether the type of a field is non-null, a list or not, and it has no default.
pub open spec fn must_be_given(field: InputField) -> bool {
    !field.has_default && match field.ty {
        GraphqlType::Named(_) => false,
        GraphqlType::NonNullNamed(_) => true,
        GraphqlType::List(_) => false,
        GraphqlType::NonNullList(_) => true,
    }
}

/// The definition of an input object has a property for each field, in order, whose schema is
/// that of the field's type with the field's description. It requires the fields that must
/// be given, in order, and no others, and says nothing of them where there are none.
pub proof fn law_definition_of_an_input_object(
    types: Types,
    scalars: Scalars,
    names: Set<Seq<char>>,
    name: Seq<char>,
    ty: InputObjectType,
)
    requires
        types[name] == ExtendedType::InputObject(ty),
        forall|i: int, j: int|
            0 <= i < j < ty.fields@.len() ==> (#[trigger] ty.fields@[i]).name@ != (
            #[trigger] ty.fields@[j]).name@,
    ensures
        ({
            let fields = ty.fields@;
            let properties = Seq::new(
                fields.len(),
                |i: int|
                    (
                        fields[i].name@,
                        type_layout(names, fields[i].ty.view(), text_of(fields[i].description)),
                    ),
            );
            let required = fields.filter(|field: InputField| must_be_given(field)).map_values(
                |field: InputField| Ordered::String(field.name@),
            );
            definition_layout(types, scalars, names, name) == Ordered::Object(
                seq![
                    ("type"@, Ordered::String("object"@)),
                    ("properties"@, Ordered::Object(properties)),
                ] + description_entry(text_of(ty.description)) + if required.len() == 0 {
                    Seq::empty()
                } else {
                    seq![("required"@, Ordered::Array(required))]
                },
            )
        }),
{
    lemma_words();
    let fields = ty.fields@;
    let none: Entries = Seq::empty();
    let properties = fields_layout(names, fields);
    lemma_properties_in_order(names, fields);
    lemma_required_in_order(fields);
    let a = ("type"@, Ordered::String("object"@));
    let b = ("properties"@, Ordered::Object(properties));
    lemma_put_new(none, a.0, a.1);
    assert(none.push(a) =~= seq![a]);
    lemma_put_new(seq![a], b.0, b.1);
    assert(seq![a].push(b) =~= seq![a, b]);
    lemma_described(seq![a, b], text_of(ty.description));
    let described = seq![a, b] + description_entry(text_of(ty.description));
    let required = required_layout(fields);
    if required.len() > 0 {
        lemma_put_new(described, "required"@, Ordered::Array(required));
        assert(described.push(("required"@, Ordered::Array(required))) =~= described + seq![
            ("required"@, Ordered::Array(required)),
        ]);
    } else {
        assert(described + Seq::<(Seq<char>, Ordered)>::empty() =~= described);
    }
}

proof fn lemma_properties_in_order(names: Set<Seq<char>>, fields: Seq<InputField>)
    requires
        forall|i: int, j: int|
            0 <= i < j < fields.len() ==> (#[trigger] fields[i]).name@ != (
            #[trigger] fields[j]).name@,
    ensures
        fields_layout(names, fields) == Seq::new(
            fields.len(),
            |i: int|
                (
                    fields[i].name@,
                    type_layout(names, fields[i].ty.view(), text_of(fields[i].description)),
                ),
        ),
    decreases fields.len(),
{
    let all = Seq::new(
        fields.len(),
        |i: int|
            (
                fields[i].name@,
                type_layout(names, fields[i].ty.view(), text_of(fields[i].description)),
            ),
    );
    if fields.len() > 0 {
        let front = fields.drop_last();
        let last = fields.last();
        lemma_properties_in_order(names, front);
        let before = fields_layout(names, front);
        assert forall|i: int| 0 <= i < before.len() implies (#[trigger] before[i]).0
            != last.name@ by {
            assert(front[i].name@ == fields[i].name@);
            assert(fields[fields.len() - 1].name@ == last.name@);
        }
        let value = type_layout(names, last.ty.view(), text_of(last.description));
        lemma_put_new(before, last.name@, value);
        assert(before.push((last.name@, value)) =~= all);
    } else {
        assert(fields_layout(names, fields) =~= all);
    }
}

proof fn lemma_required_in_order(fields: Seq<InputField>)
    ensures
        required_layout(fields) == fields.filter(
            |field: InputField| must_be_given(field),
        ).map_values(|field: InputField| Ordered::String(field.name@)),
    decreases fields.len(),
{
    reveal(Seq::filter);
    let given = |field: InputField| must_be_given(field);
    if fields.len() > 0 {
        let front = fields.drop_last();
        lemma_required_in_order(front);
        if must_be_given(fields.last()) {
            assert(fields.filter(given) =~= front.filter(given).push(fields.last()));
        } else {
            assert(fields.filter(given) =~= front.filter(given));
        }
    }
    assert(required_layout(fields) =~= fields.filter(given).map_values(
        |field: InputField| Ordered::String(field.name@),
    ));
}

/// In every input object definition that is collected, a field's name is required if and only
/// if the field's type is non-null, a list or not, and it has no default.
pub proof fn law_required_fields_of_definitions(
    types: Types,
    scalars: Scalars,
    cached: Map<Seq<char>, Json>,
    roots: Set<Seq<char>>,
    name: Seq<char>,
    ty: InputObjectType,
    field: Seq<char>,
)
    requires
        collected(types, scalars, cached, roots).contains_key(name),
        !cached.contains_key(name),
        types[name] == ExtendedType::InputObject(ty),
    ensures
        ({
            let schema = collected(types, scalars, cached, roots)[name];
            let required = exists|i: int|
                0 <= i < ty.fields@.len() && (#[trigger] ty.fields@[i]).name@ == field
                    && !ty.fields@[i].has_default && (ty.fields@[i].ty is NonNullNamed
                    || ty.fields@[i].ty is NonNullList);
            &&& schema is Object
            &&& schema->Object_0.contains_key("required"@)
                ==> schema->Object_0["required"@] is Array
            &&& required <==> schema->Object_0.contains_key("required"@)
                && schema->Object_0["required"@]->Array_0.contains(Json::String(field))
        }),
{
    lemma_words();
    let m = collected(types, scalars, cached, roots)[name]->Object_0;
    lemma_required_names(ty.fields@, field);
    assert(forall|i: int|
        0 <= i < ty.fields@.len() ==> must_be_given(#[trigger] ty.fields@[i]) == (
        !ty.fields@[i].has_default && (ty.fields@[i].ty is NonNullNamed
            || ty.fields@[i].ty is NonNullList)));
    let names = required_json(ty.fields@);
    if names.len() > 0 {
        assert(m["required"@] == Json::Array(names));
    } else {
        assert(!m.contains_key("required"@));
    }
}

proof fn lemma_required_names(fields: Seq<InputField>, name: Seq<char>)
    ensures
        required_json(fields).contains(Json::String(name)) <==> exists|i: int|
            0 <= i < fields.len() && (#[trigger] fields[i]).name@ == name && must_be_given(
                fields[i],
            ),
    decreases fields.len(),
{
    let names = required_json(fields);
    if fields.len() > 0 {
        let front = fields.drop_last();
        let last = fields.last();
        lemma_required_names(front, name);
        let before = required_json(front);
        assert(fields[fields.len() - 1] == last);
        if must_be_given(last) {
            assert(names[before.len() as int] == Json::String(last.name@));
        }
        if names.contains(Json::String(name)) {
            let k = choose|k: int| 0 <= k < names.len() && names[k] == Json::String(name);
            if k < before.len() {
                assert(before[k] == names[k]);
                let i = choose|i: int|
                    0 <= i < front.len() && (#[trigger] front[i]).name@ == name && must_be_given(
                        front[i],
                    );
                assert(fields[i] == front[i]);
            }
        }
        if exists|i: int|
            0 <= i < fields.len() && (#[trigger] fields[i]).name@ == name && must_be_given(
                fields[i],
            ) {
            let i = choose|i: int|
                0 <= i < fields.len() && (#[trigger] fields[i]).name@ == name && must_be_given(
                    fields[i],
                );
            if i < front.len() {
                assert(front[i] == fields[i]);
                let k = choose|k: int| 0 <= k < before.len() && before[k] == Json::String(name);
                assert(names[k] == before[k]);
            }
        }
    }
}

/// Walking types keeps the definitions that are there and makes one for each enum, input
/// object and custom scalar that is needed, and for nothing else: what is needed is a type that
/// is walked, or the type of a field of an input object that gets its definition.
pub proof fn law_definitions_are_the_needed_ones(
    types: Types,
    scalars: Scalars,
    cached: Map<Seq<char>, Json>,
    roots: Set<Seq<char>>,
    name: Seq<char>,
)
    ensures
        ({
            let after = collected(types, scalars, cached, roots);
            let needed = roots.contains(name) || exists|from: Seq<char>, i: int|
                #![trigger types[from]->InputObject_0.fields@[i]]
                after.contains_key(from) && !cached.contains_key(from)
                    && types[from] is InputObject && 0 <= i
                    < types[from]->InputObject_0.fields@.len()
                    && types[from]->InputObject_0.fields@[i].ty.view().inner_name() == name;
            &&& cached.contains_key(name) ==> after.contains_key(name) && after[name]
                == cached[name]
            &&& !cached.contains_key(name) ==> (after.contains_key(name) <==> needed
                && is_defined_name(types, name))
        }),
{
    let after = collected(types, scalars, cached, roots);
    if !cached.contains_key(name) {
        if after.contains_key(name) {
            let (root, n) = choose|root: Seq<char>, n: nat|
                roots.contains(root) && #[trigger] leads_to(types, cached, root, name, n);
            lemma_leads_to_missing(types, cached, root, name, n);
            if n > 0 {
                let from = lemma_last_step(types, cached, root, name, n);
                lemma_leads_to_missing(types, cached, root, from, (n - 1) as nat);
                assert(reached(types, cached, roots, from));
                assert(after.contains_key(from));
                assert(mentioned(types, from).contains(name));
                let fields = types[from]->InputObject_0.fields@;
                let i = choose|i: int| 0 <= i < fields.len() && field_of(#[trigger] fields[i], name);
                assert(types[from]->InputObject_0.fields@[i].ty.view().inner_name() == name);
            }
        }
        if is_defined_name(types, name) {
            assert(leads_to(types, cached, name, name, 0));
            if exists|from: Seq<char>, i: int|
                #![trigger types[from]->InputObject_0.fields@[i]]
                after.contains_key(from) && !cached.contains_key(from)
                    && types[from] is InputObject && 0 <= i
                    < types[from]->InputObject_0.fields@.len()
                    && types[from]->InputObject_0.fields@[i].ty.view().inner_name() == name {
                let (from, i) = choose|from: Seq<char>, i: int|
                    #![trigger types[from]->InputObject_0.fields@[i]]
                    after.contains_key(from) && !cached.contains_key(from)
                        && types[from] is InputObject && 0 <= i
                        < types[from]->InputObject_0.fields@.len()
                        && types[from]->InputObject_0.fields@[i].ty.view().inner_name() == name;
                let (root, n) = choose|root: Seq<char>, n: nat|
                    roots.contains(root) && #[trigger] leads_to(types, cached, root, from, n);
                lemma_leads_to_missing(types, cached, root, from, n);
                assert(field_of(types[from]->InputObject_0.fields@[i], name));
                assert(mentioned(types, from).contains(name));
                assert((1nat - 1) as nat == 0nat);
                assert(leads_to(types, cached, from, name, 1));
                lemma_leads_to_trans(types, cached, root, from, name, n, 1);
                assert(reached(types, cached, roots, name));
            }
        }
    }
}

/// The name before the last in a chain.
proof fn lemma_last_step(
    types: Types,
    cached: Map<Seq<char>, Json>,
    from: Seq<char>,
    to: Seq<char>,
    n: nat,
) -> (before: Seq<char>)
    requires
        leads_to(types, cached, from, to, n),
        n > 0,
    ensures
        leads_to(types, cached, from, before, (n - 1) as nat),
        mentioned(types, before).contains(to),
    decreases n,
{
    let next = choose|next: Seq<char>| #[trigger]
        mentioned(types, from).contains(next) && leads_to(types, cached, next, to, (n - 1) as nat);
    if n == 1 {
        assert(next == to);
        from
    } else {
        let before = lemma_last_step(types, cached, next, to, (n - 1) as nat);
        assert(leads_to(types, cached, next, before, ((n - 1) as nat - 1) as nat));
        before
    }
}

/// Definitions stand in the order in which types are first met. A type whose definition is
/// there, or that gets none, adds nothing. Any other adds its definition at the end, and then
/// the types of its fields are walked, in order, before the types that come next.
pub proof fn law_order_of_definitions(
    types: Types,
    scalars: Scalars,
    entries: Entries,
    name: Seq<char>,
    next: Seq<Seq<char>>,
)
    requires
        types.dom().finite(),
    ensures
        collected_layout(types, scalars, entries, Seq::empty()) == entries,
        ({
            let met = exists|i: int| 0 <= i < entries.len() && (#[trigger] entries[i]).0 == name;
            let fields = match types[name] {
                ExtendedType::InputObject(ty) => Seq::new(
                    ty.fields@.len(),
                    |i: int| ty.fields@[i].ty.view().inner_name(),
                ),
                _ => Seq::empty(),
            };
            collected_layout(types, scalars, entries, seq![name] + next) == if met
                || !is_defined_name(types, name) {
                collected_layout(types, scalars, entries, next)
            } else {
                collected_layout(
                    types,
                    scalars,
                    entries.push(
                        (
                            name,
                            definition_layout(
                                types,
                                scalars,
                                referred(types, json::plain_members(entries)),
                                name,
                            ),
                        ),
                    ),
                    fields + next,
                )
            }
        }),
{
    let none: Seq<Seq<char>> = Seq::empty();
    assert(collected_layout(types, scalars, entries, none) =~= entries);
    let pending = seq![name] + next;
    json::lemma_has(entries, name);
    assert(pending[0] == name);
    assert(pending.drop_first() =~= next);
    assert(json::plain_members(entries).contains_key(name) == names_in(entries).contains(name));
    if !json::has_member(entries, name) && is_defined_name(types, name) {
        let names = referred(types, json::plain_members(entries));
        let def = definition_layout(types, scalars, names, name);
        let grown = entries.push((name, def));
        let fields = match types[name] {
            ExtendedType::InputObject(ty) => Seq::new(
                ty.fields@.len(),
                |i: int| ty.fields@[i].ty.view().inner_name(),
            ),
            _ => Seq::empty(),
        };
        assert(mentions(types, name) =~= fields);
        assert(grown.drop_last() =~= entries);
        assert(names_in(grown) =~= names_in(entries).insert(name));
        assert(referred(types, json::plain_members(grown)) =~= names);
        assert(collected_layout(types, scalars, entries, pending) =~= collected_layout(
            types,
            scalars,
            grown,
            fields + next,
        ));
    }
}

/// One field more is one property more, at the end. Where a field of that name is there already,
/// its property keeps its place and gets the schema of the new one.
pub proof fn law_one_field_more(names: Set<Seq<char>>, fields: Seq<InputField>, field: InputField)
    ensures
        ({
            let before = fields_layout(names, fields);
            let after = fields_layout(names, fields.push(field));
            let value = type_layout(names, field.ty.view(), text_of(field.description));
            let there = exists|i: int|
                0 <= i < before.len() && (#[trigger] before[i]).0 == field.name@;
            &&& !there ==> after == before.push((field.name@, value))
            &&& there ==> after.len() == before.len() && forall|i: int|
                0 <= i < before.len() ==> #[trigger] after[i] == if before[i].0 == field.name@ {
                    (field.name@, value)
                } else {
                    before[i]
                }
        }),
{
    assert(fields.push(field).drop_last() =~= fields);
}

} // verus!
