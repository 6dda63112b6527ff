//! Building the JSON Schema of a GraphQL type, with the definitions that it refers
//! to.

use crate::graphql::{
    EnumType, EnumValue, ExtendedType, GraphqlSchema, GraphqlType, InputObjectType, ScalarType,
};
use crate::json::{self, put, Json, Object, Ordered, PartsRef};
use crate::schema_walker::definitions::{
    array_json, basic_type, definition, described, enum_definition, enum_value_line, fields_json,
    input_definition, name_json, not_null, own_description, referred, required_json,
    scalar_definition, type_json, Scalars,
};
use crate::schema_walker::layout::{
    array_layout, collected_layout, definition_layout, described_layout, enum_layout,
    field_names, fields_layout, input_layout, lemma_layout_known, lemma_layout_name,
    lemma_layout_none, lemma_layout_step, mentions, name_layout, not_null_layout,
    required_layout, scalar_layout, type_layout, Entries,
};
use crate::schema_walker::nullable::nullable;
use crate::schema_walker::reachable::{
    collected, field_of, field_types, lemma_collected_known, lemma_collected_name,
    lemma_collected_none, lemma_collected_step, lemma_referred_same, mentioned, missing, Types,
};
use crate::string_map::StringMap;
use crate::text::{join, same_text, text_of, text_or_empty, views};
use serde_json::Value;
use vstd::prelude::*;

verus! {

/// The JSON Schemas that an operator maps custom scalars to, by scalar name.
pub type CustomScalarMap = StringMap<Value>;

/// What a custom scalar map says.
pub open spec fn scalars_of(map: Option<&CustomScalarMap>) -> Scalars {
    match map {
        Some(map) => Some(map@),
        None => None,
    }
}

/// How many types of a schema have no definition yet.
pub closed spec fn remaining(types: Types, cached: Map<Seq<char>, Json>) -> nat {
    types.dom().difference(cached.dom()).len()
}

proof fn lemma_remaining(types: Types, before: Map<Seq<char>, Json>, after: Map<Seq<char>, Json>)
    requires
        types.dom().finite(),
        before.dom().subset_of(after.dom()),
    ensures
        remaining(types, after) <= remaining(types, before),
        forall|name: Seq<char>| #[trigger]
            types.contains_key(name) && !before.contains_key(name) && after.contains_key(name)
                ==> remaining(types, after) < remaining(types, before),
{
    let b = types.dom().difference(before.dom());
    let a = types.dom().difference(after.dom());
    assert(a.subset_of(b));
    vstd::set_lib::lemma_len_subset(a, b);
    assert forall|name: Seq<char>| #[trigger]
        types.contains_key(name) && !before.contains_key(name) && after.contains_key(
            name,
        ) implies a.len() < b.len() by {
        assert(b.contains(name));
        assert(a.subset_of(b.remove(name)));
        vstd::set_lib::lemma_len_subset(a, b.remove(name));
    }
}

/// The text, or none where it is missing.
fn or_empty(s: &Option<String>) -> (r: &str)
    ensures
        r@ == text_or_empty(*s),
{
    match s {
        Some(s) => s.as_str(),
        None => {
            proof {
                reveal_strlit("");
                assert(""@ =~= Seq::<char>::empty());
            }
            ""
        },
    }
}

/// Adds a description to a schema, where there is one.
fn with_desc(schema: &mut Object, description: &Option<String>)
    ensures
        json::members(*final(schema)) == described(
            json::members(*old(schema)),
            text_of(*description),
        ),
        json::ordered_members(*final(schema)) == described_layout(
            json::ordered_members(*old(schema)),
            text_of(*description),
        ),
{
    if let Some(d) = description {
        json::insert(schema, "description".to_owned(), json::string(d.clone()));
    }
}

/// The JSON Schema type of a GraphQL type that every schema has.
pub(crate) fn basic_schema_type(name: &str) -> (ty: Option<String>)
    ensures
        text_of(ty) == basic_type(name@),
{
    if same_text(name, "String") || same_text(name, "ID") {
        Some("string".to_owned())
    } else if same_text(name, "Float") {
        Some("number".to_owned())
    } else if same_text(name, "Int") {
        Some("integer".to_owned())
    } else if same_text(name, "Boolean") {
        Some("boolean".to_owned())
    } else {
        None
    }
}

/// The definition of an enum.
fn enum_schema(ty: &EnumType) -> (schema: Object)
    ensures
        json::members(schema) == enum_definition(*ty),
        json::ordered_members(schema) == enum_layout(*ty),
{
    let mut names: Vec<Value> = Vec::new();
    let mut lines: Vec<String> = Vec::new();
    let n: usize = ty.values.len();
    let ghost all_names = ty.values@.map_values(|value: EnumValue| json::text(value.name@));
    let ghost ordered_names = ty.values@.map_values(
        |value: EnumValue| Ordered::String(value.name@),
    );
    let ghost all_lines = ty.values@.map_values(|value: EnumValue| enum_value_line(value));
    for i in 0..n
        invariant
            n == ty.values@.len(),
            all_names == ty.values@.map_values(|value: EnumValue| json::text(value.name@)),
            ordered_names == ty.values@.map_values(
                |value: EnumValue| Ordered::String(value.name@),
            ),
            all_lines == ty.values@.map_values(|value: EnumValue| enum_value_line(value)),
            json::jsons(names@) =~= all_names.take(i as int),
            json::ordereds(names@) =~= ordered_names.take(i as int),
            views(lines@) =~= all_lines.take(i as int),
    {
        let value = &ty.values[i];
        let ghost (names_before, lines_before) = (names@, lines@);
        let mut line = value.name.clone();
        line.append(": ");
        line.append(or_empty(&value.description));
        lines.push(line);
        names.push(json::string(value.name.clone()));
        proof {
            assert(json::jsons(names@) =~= json::jsons(names_before).push(all_names[i as int]));
            assert(json::ordereds(names@) =~= json::ordereds(names_before).push(
                ordered_names[i as int],
            ));
            assert(views(lines@) =~= views(lines_before).push(all_lines[i as int]));
        }
    }
    assert(all_names.take(n as int) =~= all_names);
    assert(ordered_names.take(n as int) =~= ordered_names);
    assert(all_lines.take(n as int) =~= all_lines);
    let mut description = or_empty(&ty.description).to_owned();
    description.append("\n\nValues:\n");
    description.append(join(&lines, "\n").as_str());
    let mut schema = json::new_object();
    json::insert(&mut schema, "type".to_owned(), json::string("string".to_owned()));
    json::insert(&mut schema, "enum".to_owned(), json::array(names));
    json::insert(&mut schema, "description".to_owned(), json::string(description));
    schema
}

/// The schema that accepts everything but null.
fn not_null_schema() -> (schema: Object)
    ensures
        json::members(schema) == not_null(),
        json::ordered_members(schema) == not_null_layout(),
{
    let mut schema = json::new_object();
    json::insert(
        &mut schema,
        "not".to_owned(),
        json::single("type", json::string("null".to_owned())),
    );
    schema
}

/// The description that an operator's schema gives.
fn description_of(schema: &Value) -> (description: Option<String>)
    ensures
        text_of(description) == own_description(json::json(*schema)),
{
    let object = match json::parts_of(schema) {
        PartsRef::Object(object) => object,
        _ => return None,
    };
    match json::get(object, "description") {
        Some(value) => match json::parts_of(value) {
            PartsRef::String(s) => Some(s.to_owned()),
            _ => None,
        },
        None => None,
    }
}

/// The definition of a custom scalar.
fn scalar_schema(name: &str, ty: &ScalarType, scalars: Option<&CustomScalarMap>) -> (schema: Object)
    ensures
        json::members(schema) == scalar_definition(
            scalars_of(scalars),
            name@,
            text_of(ty.description),
        ),
        json::ordered_members(schema) == scalar_layout(
            scalars_of(scalars),
            name@,
            text_of(ty.description),
        ),
{
    let mapped = match scalars {
        Some(map) => map.get(name),
        None => None,
    };
    match mapped {
        Some(operator_schema) => {
            let mut parts: Vec<Value> = Vec::new();
            parts.push(json::nested(json::clone_value(operator_schema)));
            parts.push(json::object(not_null_schema()));
            assert(json::jsons(parts@) =~= seq![
                json::json(*operator_schema),
                Json::Object(not_null()),
            ]);
            assert(json::ordereds(parts@) =~= seq![
                json::written(json::ordered(*operator_schema)),
                Ordered::Object(not_null_layout()),
            ]);
            let mut schema = json::new_object();
            json::insert(&mut schema, "allOf".to_owned(), json::array(parts));
            let description = description_of(operator_schema);
            if description.is_some() {
                with_desc(&mut schema, &description);
            } else {
                with_desc(&mut schema, &ty.description);
            }
            schema
        },
        None => {
            let mut schema = not_null_schema();
            with_desc(&mut schema, &ty.description);
            schema
        },
    }
}

/// The definition of an input object. Its fields are walked one after the other, and
/// the definitions that they need are added to the cache.
fn input_schema(
    ty: &InputObjectType,
    schema: &GraphqlSchema,
    cache: &mut Object,
    scalars: Option<&CustomScalarMap>,
) -> (r: Object)
    ensures
        json::members(r) == input_definition(
            referred(schema.types@, json::members(*old(cache))),
            *ty,
        ),
        json::members(*final(cache)) == collected(
            schema.types@,
            scalars_of(scalars),
            json::members(*old(cache)),
            field_types(ty.fields@),
        ),
        json::ordered_members(r) == input_layout(
            referred(schema.types@, json::members(*old(cache))),
            *ty,
        ),
        json::ordered_members(*final(cache)) == collected_layout(
            schema.types@,
            scalars_of(scalars),
            json::ordered_members(*old(cache)),
            field_names(ty.fields@),
        ),
    decreases remaining(schema.types@, json::members(*old(cache))), 2int, 0nat,
{
    let mut properties = json::new_object();
    let mut required: Vec<Value> = Vec::new();
    let n: usize = ty.fields.len();
    let ghost types = schema.types@;
    let ghost before = json::members(*cache);
    let ghost entries = json::ordered_members(*cache);
    let ghost names = referred(types, before);
    let ghost fields = ty.fields@;
    proof {
        lemma_collected_none(types, scalars_of(scalars), before);
        assert(field_types(fields.take(0)) =~= Set::empty());
        schema.types.lemma_finite();
        lemma_layout_none(types, scalars_of(scalars), entries);
        assert(field_names(fields.take(0)) =~= Seq::empty());
        assert(json::ordereds(required@) =~= required_layout(fields.take(0)));
    }
    for i in 0..n
        invariant
            n == ty.fields@.len(),
            fields == ty.fields@,
            types == schema.types@,
            types.dom().finite(),
            before == json::members(*old(cache)),
            entries == json::ordered_members(*old(cache)),
            names == referred(types, before),
            json::ordered_members(properties) == fields_layout(names, fields.take(i as int)),
            json::ordereds(required@) == required_layout(fields.take(i as int)),
            json::ordered_members(*cache) == collected_layout(
                types,
                scalars_of(scalars),
                entries,
                field_names(fields.take(i as int)),
            ),
            json::members(properties) == fields_json(names, fields.take(i as int)),
            json::jsons(required@) == required_json(fields.take(i as int)),
            json::members(*cache) == collected(
                types,
                scalars_of(scalars),
                before,
                field_types(fields.take(i as int)),
            ),
    {
        let field = &ty.fields[i];
        proof {
            let upto = fields.take(i + 1);
            assert(upto.drop_last() =~= fields.take(i as int));
            assert(upto.last() == *field);
            lemma_referred_same(
                types,
                scalars_of(scalars),
                before,
                field_types(fields.take(i as int)),
            );
            lemma_remaining(types, before, json::members(*cache));
            lemma_collected_step(
                types,
                scalars_of(scalars),
                before,
                field_types(fields.take(i as int)),
                set![field.ty.view().inner_name()],
            );
            assert forall|name: Seq<char>| field_types(upto).contains(name) implies field_types(
                fields.take(i as int),
            ).union(set![field.ty.view().inner_name()]).contains(name) by {
                let j = choose|j: int|
                    0 <= j < upto.len() && field_of(
                        #[trigger] upto[j],
                        name,
                    );
                if j < i {
                    assert(upto[j] == fields.take(i as int)[j]);
                }
            }
            assert forall|name: Seq<char>|
                field_types(fields.take(i as int)).union(
                    set![field.ty.view().inner_name()],
                ).contains(name) implies field_types(upto).contains(name) by {
                if field_types(fields.take(i as int)).contains(name) {
                    let j = choose|j: int|
                        0 <= j < i && field_of(
                            #[trigger] fields.take(i as int)[j],
                            name,
                        );
                    assert(upto[j] == fields.take(i as int)[j]);
                } else {
                    assert(field_of(upto[i as int], name));
                }
            }
            assert(field_types(upto) =~= field_types(fields.take(i as int)).union(
                set![field.ty.view().inner_name()],
            ));
            lemma_layout_step(
                types,
                scalars_of(scalars),
                entries,
                field_names(fields.take(i as int)),
                seq![field.ty.view().inner_name()],
            );
            assert(field_names(upto) =~= field_names(fields.take(i as int)) + seq![
                field.ty.view().inner_name(),
            ]);
        }
        let ghost required_before = json::ordereds(required@);
        let value = type_to_schema(&field.ty, schema, cache, scalars, &field.description);
        json::insert(&mut properties, field.name.clone(), value);
        if field.is_required() {
            required.push(json::string(field.name.clone()));
            assert(json::jsons(required@) =~= required_json(fields.take(i as int)).push(
                json::text(field.name@),
            ));
            assert(json::ordereds(required@) =~= required_before.push(
                Ordered::String(field.name@),
            ));
        }
    }
    assert(fields.take(n as int) =~= fields);
    let mut r = json::new_object();
    json::insert(&mut r, "type".to_owned(), json::string("object".to_owned()));
    json::insert(&mut r, "properties".to_owned(), json::object(properties));
    with_desc(&mut r, &ty.description);
    assert(json::jsons(required@).len() == required@.len());
    if required.len() > 0 {
        json::insert(&mut r, "required".to_owned(), json::array(required));
    }
    r
}

/// The schema of a named type without its nullability. Its definition, and those
/// that it needs, are added to the cache.
pub fn name_to_schema(
    name: &str,
    schema: &GraphqlSchema,
    cache: &mut Object,
    scalars: Option<&CustomScalarMap>,
    description: &Option<String>,
) -> (r: Value)
    ensures
        json::json(r) == name_json(
            referred(schema.types@, json::members(*old(cache))),
            name@,
            text_of(*description),
        ),
        json::members(*final(cache)) == collected(
            schema.types@,
            scalars_of(scalars),
            json::members(*old(cache)),
            set![name@],
        ),
        json::ordered(r) == name_layout(
            referred(schema.types@, json::members(*old(cache))),
            name@,
            text_of(*description),
        ),
        json::ordered_members(*final(cache)) == collected_layout(
            schema.types@,
            scalars_of(scalars),
            json::ordered_members(*old(cache)),
            seq![name@],
        ),
    decreases remaining(schema.types@, json::members(*old(cache))), 0int, 0nat,
{
    let ghost types = schema.types@;
    let ghost before = json::members(*cache);
    let ghost names = referred(types, before);
    let ghost entries = json::ordered_members(*cache);
    proof {
        schema.types.lemma_finite();
        json::lemma_members(*cache);
        if missing(types, before, name@) {
            lemma_layout_name(types, scalars_of(scalars), entries, Ordered::Null, name@);
        } else {
            lemma_collected_known(types, scalars_of(scalars), before, name@);
            lemma_layout_known(types, scalars_of(scalars), entries, name@);
        }
    }
    let mut result = json::new_object();
    match basic_schema_type(name) {
        Some(ty) => {
            json::insert(&mut result, "type".to_owned(), json::string(ty));
        },
        None => {
            let mut known = json::get(cache, name).is_some();
            if !known {
                match schema.types.get(name) {
                    Some(ExtendedType::Enum(ty)) => {
                        json::insert(cache, name.to_owned(), json::object(enum_schema(ty)));
                        proof {
                            lemma_leaf(types, scalars_of(scalars), before, name@);
                            lemma_layout_leaf(types, scalars_of(scalars), entries, name@);
                        }
                        known = true;
                    },
                    Some(ExtendedType::InputObject(ty)) => {
                        json::insert(cache, name.to_owned(), json::null());
                        proof {
                            lemma_collected_name(
                                types,
                                scalars_of(scalars),
                                before,
                                Json::Null,
                                name@,
                            );
                            lemma_remaining(types, before, json::members(*cache));
                            assert(types.contains_key(name@));
                        }
                        let full = input_schema(ty, schema, cache, scalars);
                        json::insert(cache, name.to_owned(), json::object(full));
                        known = true;
                    },
                    Some(ExtendedType::Scalar(ty)) => {
                        json::insert(
                            cache,
                            name.to_owned(),
                            json::object(scalar_schema(name, ty, scalars)),
                        );
                        proof {
                            lemma_leaf(types, scalars_of(scalars), before, name@);
                            lemma_layout_leaf(types, scalars_of(scalars), entries, name@);
                        }
                        known = true;
                    },
                    _ => {},
                }
            }
            if known {
                let mut target = "#/definitions/".to_owned();
                target.append(name);
                json::insert(&mut result, "$ref".to_owned(), json::string(target));
            }
        },
    }
    with_desc(&mut result, description);
    json::object(result)
}

/// Walking a name that mentions no others puts its definition in place.
proof fn lemma_leaf(
    types: Types,
    scalars: Scalars,
    cached: Map<Seq<char>, Json>,
    name: Seq<char>,
)
    requires
        missing(types, cached, name),
        mentioned(types, name) == Set::<Seq<char>>::empty(),
    ensures
        collected(types, scalars, cached, set![name]) == cached.insert(
            name,
            definition(types, scalars, referred(types, cached), name),
        ),
{
    lemma_collected_name(types, scalars, cached, Json::Null, name);
    lemma_collected_none(types, scalars, cached.insert(name, Json::Null));
    assert(cached.insert(name, Json::Null).insert(
        name,
        definition(types, scalars, referred(types, cached), name),
    ) =~= cached.insert(name, definition(types, scalars, referred(types, cached), name)));
}

/// Walking a name that mentions no others puts its definition at the end.
proof fn lemma_layout_leaf(types: Types, scalars: Scalars, entries: Entries, name: Seq<char>)
    requires
        types.dom().finite(),
        missing(types, json::plain_members(entries), name),
        mentions(types, name) == Seq::<Seq<char>>::empty(),
    ensures
        put(
            entries,
            name,
            definition_layout(
                types,
                scalars,
                referred(types, json::plain_members(entries)),
                name,
            ),
        ) == collected_layout(types, scalars, entries, seq![name]),
{
    let held = entries.push((name, Ordered::Null));
    let def = definition_layout(
        types,
        scalars,
        referred(types, json::plain_members(entries)),
        name,
    );
    lemma_layout_name(types, scalars, entries, Ordered::Null, name);
    lemma_layout_none(types, scalars, held);
    json::lemma_has(entries, name);
    assert(held[entries.len() as int].0 == name);
    assert(json::has_member(held, name));
    assert forall|i: int| 0 <= i < entries.len() implies put(held, name, def)[i] == entries[i] by {
        assert(entries[i].0 != name);
    }
    assert(put(held, name, def) =~= entries.push((name, def)));
}

/// The schema of a list without its nullability.
fn array_schema(items: Value) -> (r: Value)
    ensures
        json::json(r) == array_json(json::json(items)),
        json::ordered(r) == array_layout(json::ordered(items)),
{
    let mut schema = json::new_object();
    json::insert(&mut schema, "type".to_owned(), json::string("array".to_owned()));
    json::insert(&mut schema, "items".to_owned(), json::nested(items));
    json::object(schema)
}

/// The schema of a type. The definitions that it refers to are added to the cache.
pub fn type_to_schema(
    ty: &GraphqlType,
    schema: &GraphqlSchema,
    cache: &mut Object,
    scalars: Option<&CustomScalarMap>,
    description: &Option<String>,
) -> (r: Value)
    ensures
        json::json(r) == type_json(
            referred(schema.types@, json::members(*old(cache))),
            ty.view(),
            text_of(*description),
        ),
        json::members(*final(cache)) == collected(
            schema.types@,
            scalars_of(scalars),
            json::members(*old(cache)),
            set![ty.view().inner_name()],
        ),
        json::ordered(r) == type_layout(
            referred(schema.types@, json::members(*old(cache))),
            ty.view(),
            text_of(*description),
        ),
        json::ordered_members(*final(cache)) == collected_layout(
            schema.types@,
            scalars_of(scalars),
            json::ordered_members(*old(cache)),
            seq![ty.view().inner_name()],
        ),
    decreases remaining(schema.types@, json::members(*old(cache))), 1int, ty.depth(),
{
    match ty {
        GraphqlType::List(item) => {
            let items = type_to_schema(item, schema, cache, scalars, description);
            nullable(array_schema(items))
        },
        GraphqlType::NonNullList(item) => {
            let items = type_to_schema(item, schema, cache, scalars, description);
            array_schema(items)
        },
        GraphqlType::Named(name) => nullable(
            name_to_schema(name.as_str(), schema, cache, scalars, description),
        ),
        GraphqlType::NonNullNamed(name) => name_to_schema(
            name.as_str(),
            schema,
            cache,
            scalars,
            description,
        ),
    }
}

} // verus!
