//! What the JSON Schema of a GraphQL type is.

use crate::graphql::{EnumType, EnumValue, ExtendedType, InputField, InputObjectType, TypeView};
use crate::json::{self, Json};
use crate::schema_walker::nullable::{null_schema, nullable_json};
use crate::text::{joined, text_of, text_or_empty};
use serde_json::Value;
use vstd::prelude::*;

verus! {

/// The JSON Schemas that an operator maps custom scalars to, by scalar name.
pub type Scalars = Option<Map<Seq<char>, Value>>;

/// The JSON Schema type of a GraphQL type that every schema has.
pub open spec fn basic_type(name: Seq<char>) -> Option<Seq<char>> {
    if name == "String"@ || name == "ID"@ {
        Some("string"@)
    } else if name == "Float"@ {
        Some("number"@)
    } else if name == "Int"@ {
        Some("integer"@)
    } else if name == "Boolean"@ {
        Some("boolean"@)
    } else {
        None
    }
}

/// Whether the type gets a definition of its own: an enum, an input object or a
/// custom scalar.
pub open spec fn defined(types: Map<Seq<char>, ExtendedType>, name: Seq<char>) -> bool {
    &&& basic_type(name) is None
    &&& types.contains_key(name)
    &&& (types[name] is Enum || types[name] is InputObject || types[name] is Scalar)
}

/// The names that are referred to by "$ref": those that have a definition already
/// and those that get one.
pub open spec fn referred(
    types: Map<Seq<char>, ExtendedType>,
    cached: Map<Seq<char>, Json>,
) -> Set<Seq<char>> {
    Set::new(|name: Seq<char>| cached.contains_key(name) || defined(types, name))
}

/// The members with a description, where there is one.
pub open spec fn described(
    members: Map<Seq<char>, Json>,
    description: Option<Seq<char>>,
) -> Map<Seq<char>, Json> {
    match description {
        Some(d) => members.insert("description"@, json::text(d)),
        None => members,
    }
}

/// A reference to the definition of a name.
pub open spec fn reference(name: Seq<char>) -> Map<Seq<char>, Json> {
    json::no_members().insert("$ref"@, json::text("#/definitions/"@ + name))
}

/// The members of the schema of a named type without its nullability and
/// description.
pub open spec fn name_members(referred: Set<Seq<char>>, name: Seq<char>) -> Map<Seq<char>, Json> {
    match basic_type(name) {
        Some(ty) => json::no_members().insert("type"@, json::text(ty)),
        None => if referred.contains(name) {
            reference(name)
        } else {
            json::no_members()
        },
    }
}

/// The schema of a named type without its nullability.
pub open spec fn name_json(
    referred: Set<Seq<char>>,
    name: Seq<char>,
    description: Option<Seq<char>>,
) -> Json {
    Json::Object(described(name_members(referred, name), description))
}

/// The schema of a list without its nullability.
pub open spec fn array_json(items: Json) -> Json {
    Json::Object(
        json::no_members().insert("type"@, json::text("array"@)).insert("items"@, items),
    )
}

/// The schema of a type. The description goes to the named type inside.
pub open spec fn type_json(
    referred: Set<Seq<char>>,
    ty: TypeView,
    description: Option<Seq<char>>,
) -> Json
    decreases ty,
{
    match ty {
        TypeView::Named(name) => nullable_json(name_json(referred, name, description)),
        TypeView::NonNullNamed(name) => name_json(referred, name, description),
        TypeView::List(item) => nullable_json(array_json(type_json(referred, *item, description))),
        TypeView::NonNullList(item) => array_json(type_json(referred, *item, description)),
    }
}

/// How a value of an enum is told of in the description.
pub open spec fn enum_value_line(value: EnumValue) -> Seq<char> {
    value.name@ + ": "@ + text_or_empty(value.description)
}

/// The definition of an enum.
pub open spec fn enum_definition(ty: EnumType) -> Map<Seq<char>, Json> {
    json::no_members().insert("type"@, json::text("string"@)).insert(
        "enum"@,
        Json::Array(ty.values@.map_values(|value: EnumValue| json::text(value.name@))),
    ).insert(
        "description"@,
        json::text(
            text_or_empty(ty.description) + "\n\nValues:\n"@ + joined(
                ty.values@.map_values(|value: EnumValue| enum_value_line(value)),
                "\n"@,
            ),
        ),
    )
}

/// The schema that accepts everything but null.
pub open spec fn not_null() -> Map<Seq<char>, Json> {
    json::no_members().insert("not"@, null_schema())
}

/// The description that an operator's schema gives.
pub open spec fn own_description(schema: Json) -> Option<Seq<char>> {
    match schema {
        Json::Object(m) => if m.contains_key("description"@) && m["description"@] is String {
            Some(m["description"@]->String_0)
        } else {
            None
        },
        _ => None,
    }
}

/// The definition of a custom scalar: what its operator's schema accepts but null,
/// or everything but null where there is no such schema.
pub open spec fn scalar_definition(
    scalars: Scalars,
    name: Seq<char>,
    description: Option<Seq<char>>,
) -> Map<Seq<char>, Json> {
    match scalars {
        Some(map) if map.contains_key(name) => {
            let schema = json::json(map[name]);
            described(
                json::no_members().insert(
                    "allOf"@,
                    Json::Array(seq![schema, Json::Object(not_null())]),
                ),
                match own_description(schema) {
                    Some(d) => Some(d),
                    None => description,
                },
            )
        },
        _ => described(not_null(), description),
    }
}

/// The "properties" of an input object, of its fields.
pub open spec fn fields_json(referred: Set<Seq<char>>, fields: Seq<InputField>) -> Map<
    Seq<char>,
    Json,
>
    decreases fields.len(),
{
    if fields.len() == 0 {
        json::no_members()
    } else {
        let field = fields.last();
        fields_json(referred, fields.drop_last()).insert(
            field.name@,
            type_json(referred, field.ty.view(), text_of(field.description)),
        )
    }
}

/// The names of the fields that have to be given, in order.
pub open spec fn required_json(fields: Seq<InputField>) -> Seq<Json>
    decreases fields.len(),
{
    if fields.len() == 0 {
        Seq::empty()
    } else if fields.last().required() {
        required_json(fields.drop_last()).push(json::text(fields.last().name@))
    } else {
        required_json(fields.drop_last())
    }
}

/// The members with a list of required names, where there is one.
pub open spec fn requiring(members: Map<Seq<char>, Json>, names: Seq<Json>) -> Map<
    Seq<char>,
    Json,
> {
    if names.len() == 0 {
        members
    } else {
        members.insert("required"@, Json::Array(names))
    }
}

/// The definition of an input object.
pub open spec fn input_definition(referred: Set<Seq<char>>, ty: InputObjectType) -> Map<
    Seq<char>,
    Json,
> {
    requiring(
        described(
            json::no_members().insert("type"@, json::text("object"@)).insert(
                "properties"@,
                Json::Object(fields_json(referred, ty.fields@)),
            ),
            text_of(ty.description),
        ),
        required_json(ty.fields@),
    )
}

/// The definition of a name that gets one.
pub open spec fn definition(
    types: Map<Seq<char>, ExtendedType>,
    scalars: Scalars,
    referred: Set<Seq<char>>,
    name: Seq<char>,
) -> Json {
    Json::Object(
        match types[name] {
            ExtendedType::Enum(ty) => enum_definition(ty),
            ExtendedType::InputObject(ty) => input_definition(referred, ty),
            ExtendedType::Scalar(ty) => scalar_definition(scalars, name, text_of(ty.description)),
            _ => json::no_members(),
        },
    )
}

} // verus!
