//! The references inside JSON Schemas.

use crate::graphql::{EnumValue, ExtendedType, InputField, TypeView};
use crate::json::{self, Json};
use crate::schema_walker::definitions::{
    array_json, basic_type, defined, definition, described, enum_definition, fields_json,
    name_json, name_members, not_null, own_description, referred, required_json, type_json,
    Scalars,
};
use crate::schema_walker::nullable::{accepts_null, no_references, null_schema, nullable_json};
use crate::schema_walker::reachable::{
    collected, field_of, leads_to, lemma_leads_to_missing, lemma_leads_to_trans, mentioned,
    reached, Types,
};
use crate::text::text_of;
use vstd::prelude::*;

verus! {

/// Whether a reference to the target stands somewhere in a JSON value.
pub open spec fn refers_to(value: Json, target: Seq<char>) -> bool
    decreases value,
{
    match value {
        Json::Array(items) => exists|i: int|
            0 <= i < items.len() && refers_to(#[trigger] items[i], target),
        Json::Object(m) => {
            ||| m.contains_key("$ref"@) && m["$ref"@] == json::text(target)
            ||| exists|key: Seq<char>| #[trigger] m.contains_key(key) && refers_to(m[key], target)
        },
        _ => false,
    }
}

/// Whether references stand in a JSON value.
pub open spec fn has_references(value: Json) -> bool {
    exists|target: Seq<char>| refers_to(value, target)
}

/// The items of an array refer to nothing that the array does not refer to.
proof fn lemma_item(value: Json, i: int, target: Seq<char>)
    requires
        value is Array,
        0 <= i < value->Array_0.len(),
        refers_to(value->Array_0[i], target),
    ensures
        refers_to(value, target),
{
}

/// The members of an object refer to nothing that the object does not refer to.
proof fn lemma_member(value: Json, key: Seq<char>, target: Seq<char>)
    requires
        value is Object,
        value->Object_0.contains_key(key),
        refers_to(value->Object_0[key], target),
    ensures
        refers_to(value, target),
{
}

/// What is said of targets that a schema does not refer to, or that reject null, does not
/// matter.
pub(crate) proof fn lemma_rejecting_references(schema: Json, refs: spec_fn(Seq<char>) -> bool)
    requires
        forall|target: Seq<char>| refers_to(schema, target) ==> !refs(target),
    ensures
        accepts_null(schema, refs) == accepts_null(schema, no_references()),
    decreases schema, 1nat,
{
    if let Json::Object(m) = schema {
        if m.contains_key("$ref"@) && m["$ref"@] is String {
            let target = m["$ref"@]->String_0;
            assert(refers_to(schema, target));
        } else {
            lemma_rejecting_member(schema, "not"@, refs);
            lemma_rejecting_member(schema, "if"@, refs);
            lemma_rejecting_member(schema, "then"@, refs);
            lemma_rejecting_member(schema, "else"@, refs);
            lemma_rejecting_items(schema, "allOf"@, refs);
            lemma_rejecting_items(schema, "anyOf"@, refs);
            lemma_rejecting_items(schema, "oneOf"@, refs);
        }
    }
}

proof fn lemma_rejecting_member(
    schema: Json,
    key: Seq<char>,
    refs: spec_fn(Seq<char>) -> bool,
)
    requires
        schema is Object,
        forall|target: Seq<char>| refers_to(schema, target) ==> !refs(target),
    ensures
        schema->Object_0.contains_key(key) ==> accepts_null(schema->Object_0[key], refs)
            == accepts_null(schema->Object_0[key], no_references()),
    decreases schema, 0nat,
{
    if schema->Object_0.contains_key(key) {
        assert forall|target: Seq<char>| refers_to(schema->Object_0[key], target) implies !refs(
            target,
        ) by {
            lemma_member(schema, key, target);
        }
        lemma_rejecting_references(schema->Object_0[key], refs);
    }
}

proof fn lemma_rejecting_items(
    schema: Json,
    key: Seq<char>,
    refs: spec_fn(Seq<char>) -> bool,
)
    requires
        schema is Object,
        forall|target: Seq<char>| refers_to(schema, target) ==> !refs(target),
    ensures
        schema->Object_0.contains_key(key) && schema->Object_0[key] is Array ==> forall|i: int|
            0 <= i < schema->Object_0[key]->Array_0.len() ==> accepts_null(
                #[trigger] schema->Object_0[key]->Array_0[i],
                refs,
            ) == accepts_null(schema->Object_0[key]->Array_0[i], no_references()),
    decreases schema, 0nat,
{
    if schema->Object_0.contains_key(key) && schema->Object_0[key] is Array {
        assert forall|i: int| 0 <= i < schema->Object_0[key]->Array_0.len() implies accepts_null(
            #[trigger] schema->Object_0[key]->Array_0[i],
            refs,
        ) == accepts_null(schema->Object_0[key]->Array_0[i], no_references()) by {
            assert forall|target: Seq<char>|
                refers_to(schema->Object_0[key]->Array_0[i], target) implies !refs(target) by {
                lemma_item(schema->Object_0[key], i, target);
                lemma_member(schema, key, target);
            }
            lemma_rejecting_references(schema->Object_0[key]->Array_0[i], refs);
        }
    }
}

/// Whether each definition that the value refers to is there.
pub open spec fn dangling_free(value: Json, definitions: Map<Seq<char>, Json>) -> bool {
    forall|name: Seq<char>|
        #[trigger] refers_to(value, "#/definitions/"@ + name) ==> definitions.contains_key(name)
}

/// Whether the definitions are complete: each refers only to definitions that are there, and
/// none is the null that holds a place.
pub open spec fn complete(definitions: Map<Seq<char>, Json>) -> bool {
    forall|name: Seq<char>| #[trigger]
        definitions.contains_key(name) ==> definitions[name] !is Null && dangling_free(
            definitions[name],
            definitions,
        )
}

/// Whether the operator's schemas for custom scalars hold no references.
pub open spec fn plain_scalars(scalars: Scalars) -> bool {
    match scalars {
        Some(map) => forall|name: Seq<char>| #[trigger]
            map.contains_key(name) ==> !has_references(json::json(map[name])),
        None => true,
    }
}

proof fn lemma_insert(m: Map<Seq<char>, Json>, key: Seq<char>, value: Json, target: Seq<char>)
    requires
        refers_to(Json::Object(m.insert(key, value)), target),
    ensures
        refers_to(Json::Object(m), target) || refers_to(value, target) || (key == "$ref"@ && value
            == json::text(target)),
{
    let after = m.insert(key, value);
    if !(after.contains_key("$ref"@) && after["$ref"@] == json::text(target)) {
        let k = choose|k: Seq<char>| #[trigger]
            after.contains_key(k) && refers_to(after[k], target);
        if k != key {
            assert(m.contains_key(k) && refers_to(m[k], target));
        }
    } else if key != "$ref"@ {
        assert(m.contains_key("$ref"@) && m["$ref"@] == json::text(target));
    }
}

proof fn lemma_none(target: Seq<char>)
    ensures
        !refers_to(Json::Object(json::no_members()), target),
{
}

proof fn lemma_words()
    ensures
        "$ref"@ != "type"@,
        "$ref"@ != "items"@,
        "$ref"@ != "description"@,
        "$ref"@ != "oneOf"@,
        "$ref"@ != "not"@,
        "$ref"@ != "allOf"@,
        "$ref"@ != "enum"@,
        "$ref"@ != "properties"@,
        "$ref"@ != "required"@,
{
    reveal_strlit("$ref");
    reveal_strlit("type");
    reveal_strlit("items");
    reveal_strlit("description");
    reveal_strlit("oneOf");
    reveal_strlit("not");
    reveal_strlit("allOf");
    reveal_strlit("enum");
    reveal_strlit("properties");
    reveal_strlit("required");
    assert("$ref"@[0] == '$' && "$ref"@.len() == 4);
    assert("type"@[0] == 't' && "enum"@[0] == 'e');
    assert("items"@.len() == 5 && "oneOf"@.len() == 5 && "allOf"@.len() == 5);
    assert("not"@.len() == 3 && "required"@.len() == 8);
    assert("description"@.len() == 11 && "properties"@.len() == 10);
}

proof fn lemma_described(
    m: Map<Seq<char>, Json>,
    description: Option<Seq<char>>,
    target: Seq<char>,
)
    requires
        refers_to(Json::Object(described(m, description)), target),
    ensures
        refers_to(Json::Object(m), target),
{
    lemma_words();
    if let Some(d) = description {
        lemma_insert(m, "description"@, json::text(d), target);
    }
}

proof fn lemma_pair(a: Json, b: Json, target: Seq<char>)
    requires
        refers_to(Json::Array(seq![a, b]), target),
    ensures
        refers_to(a, target) || refers_to(b, target),
{
    let items = seq![a, b];
    let i = choose|i: int| 0 <= i < items.len() && refers_to(#[trigger] items[i], target);
    assert(items[i] == a || items[i] == b);
}

proof fn lemma_texts(items: Seq<Json>, target: Seq<char>)
    requires
        forall|i: int| 0 <= i < items.len() ==> (#[trigger] items[i]) is String,
    ensures
        !refers_to(Json::Array(items), target),
{
    if refers_to(Json::Array(items), target) {
        let i = choose|i: int| 0 <= i < items.len() && refers_to(#[trigger] items[i], target);
        assert(items[i] is String);
    }
}

proof fn lemma_null_schema(target: Seq<char>)
    ensures
        !refers_to(null_schema(), target),
        !refers_to(Json::Object(not_null()), target),
{
    lemma_words();
    lemma_none(target);
    if refers_to(null_schema(), target) {
        lemma_insert(json::no_members(), "type"@, json::text("null"@), target);
    }
    if refers_to(Json::Object(not_null()), target) {
        lemma_insert(json::no_members(), "not"@, null_schema(), target);
    }
}

proof fn lemma_nullable(schema: Json, target: Seq<char>)
    requires
        refers_to(nullable_json(schema), target),
    ensures
        refers_to(schema, target),
{
    if nullable_json(schema) != schema {
        lemma_words();
        lemma_none(target);
        lemma_null_schema(target);
        let branches = Json::Array(seq![schema, null_schema()]);
        lemma_insert(json::no_members(), "oneOf"@, branches, target);
        lemma_pair(schema, null_schema(), target);
    }
}

/// Whether the target is the definition of the name, and the name is one that is referred
/// to.
spec fn is_reference(names: Set<Seq<char>>, name: Seq<char>, target: Seq<char>) -> bool {
    names.contains(name) && basic_type(name) is None && target == "#/definitions/"@ + name
}

/// The schema of a type refers at most to the definition of the named type inside.
proof fn lemma_type(
    names: Set<Seq<char>>,
    ty: TypeView,
    description: Option<Seq<char>>,
    target: Seq<char>,
)
    requires
        refers_to(type_json(names, ty, description), target),
    ensures
        is_reference(names, ty.inner_name(), target),
    decreases ty,
{
    lemma_words();
    lemma_none(target);
    match ty {
        TypeView::Named(name) => {
            lemma_nullable(name_json(names, name, description), target);
            lemma_name(names, name, description, target);
        },
        TypeView::NonNullNamed(name) => {
            lemma_name(names, name, description, target);
        },
        TypeView::List(item) => {
            let items = type_json(names, *item, description);
            lemma_nullable(array_json(items), target);
            lemma_array(items, target);
            lemma_type(names, *item, description, target);
        },
        TypeView::NonNullList(item) => {
            let items = type_json(names, *item, description);
            lemma_array(items, target);
            lemma_type(names, *item, description, target);
        },
    }
}

proof fn lemma_array(items: Json, target: Seq<char>)
    requires
        refers_to(array_json(items), target),
    ensures
        refers_to(items, target),
{
    lemma_words();
    lemma_none(target);
    let typed = json::no_members().insert("type"@, json::text("array"@));
    lemma_insert(typed, "items"@, items, target);
    if refers_to(Json::Object(typed), target) {
        lemma_insert(json::no_members(), "type"@, json::text("array"@), target);
    }
}

proof fn lemma_name(
    names: Set<Seq<char>>,
    name: Seq<char>,
    description: Option<Seq<char>>,
    target: Seq<char>,
)
    requires
        refers_to(name_json(names, name, description), target),
    ensures
        is_reference(names, name, target),
{
    lemma_words();
    lemma_none(target);
    lemma_described(name_members(names, name), description, target);
    match basic_type(name) {
        Some(ty) => {
            lemma_insert(json::no_members(), "type"@, json::text(ty), target);
        },
        None => {
            if names.contains(name) {
                lemma_insert(
                    json::no_members(),
                    "$ref"@,
                    json::text("#/definitions/"@ + name),
                    target,
                );
            }
        },
    }
}

/// The properties of an input object refer at most to the definitions of the types of its
/// fields.
proof fn lemma_fields(names: Set<Seq<char>>, fields: Seq<InputField>, target: Seq<char>) -> (i: int)
    requires
        refers_to(Json::Object(fields_json(names, fields)), target),
    ensures
        0 <= i < fields.len(),
        is_reference(names, fields[i].ty.view().inner_name(), target),
    decreases fields.len(),
{
    lemma_none(target);
    if fields.len() == 0 {
        0
    } else {
        let front = fields.drop_last();
        let field = fields.last();
        let schema = type_json(names, field.ty.view(), text_of(field.description));
        lemma_insert(fields_json(names, front), field.name@, schema, target);
        if refers_to(schema, target) {
            lemma_type(names, field.ty.view(), text_of(field.description), target);
            fields.len() - 1
        } else {
            let i = lemma_fields(names, front, target);
            assert(front[i] == fields[i]);
            i
        }
    }
}

/// The definition of a name refers at most to the definitions of what it mentions.
proof fn lemma_definition(
    types: Types,
    scalars: Scalars,
    names: Set<Seq<char>>,
    name: Seq<char>,
    target: Seq<char>,
) -> (mention: Seq<char>)
    requires
        defined(types, name),
        plain_scalars(scalars),
        refers_to(definition(types, scalars, names, name), target),
    ensures
        mentioned(types, name).contains(mention),
        is_reference(names, mention, target),
{
    lemma_words();
    lemma_none(target);
    match types[name] {
        ExtendedType::Enum(ty) => {
            let texts = ty.values@.map_values(|value: EnumValue| json::text(value.name@));
            let a = json::no_members().insert("type"@, json::text("string"@));
            let b = a.insert("enum"@, Json::Array(texts));
            let description = enum_definition(ty)["description"@];
            assert(enum_definition(ty) =~= b.insert("description"@, description));
            lemma_insert(b, "description"@, description, target);
            lemma_texts(texts, target);
            if refers_to(Json::Object(b), target) {
                lemma_insert(a, "enum"@, Json::Array(texts), target);
            }
            if refers_to(Json::Object(a), target) {
                lemma_insert(json::no_members(), "type"@, json::text("string"@), target);
            }
            name
        },
        ExtendedType::InputObject(ty) => {
            let properties = fields_json(names, ty.fields@);
            let a = json::no_members().insert("type"@, json::text("object"@));
            let b = a.insert("properties"@, Json::Object(properties));
            let c = described(b, text_of(ty.description));
            let required = required_json(ty.fields@);
            lemma_required_texts(ty.fields@);
            lemma_texts(required, target);
            if required.len() > 0 {
                lemma_insert(c, "required"@, Json::Array(required), target);
            }
            lemma_described(b, text_of(ty.description), target);
            lemma_insert(a, "properties"@, Json::Object(properties), target);
            if refers_to(Json::Object(a), target) {
                lemma_insert(json::no_members(), "type"@, json::text("object"@), target);
            }
            let i = lemma_fields(names, ty.fields@, target);
            let mention = ty.fields@[i].ty.view().inner_name();
            assert(field_of(ty.fields@[i], mention));
            mention
        },
        ExtendedType::Scalar(ty) => {
            lemma_null_schema(target);
            if scalars is Some && scalars->0.contains_key(name) {
                let own = json::json(scalars->0[name]);
                let parts = Json::Array(seq![own, Json::Object(not_null())]);
                let m = json::no_members().insert("allOf"@, parts);
                let d = match own_description(own) {
                    Some(d) => Some(d),
                    None => text_of(ty.description),
                };
                assert(definition(types, scalars, names, name) == Json::Object(described(m, d)));
                lemma_described(m, d, target);
                lemma_insert(json::no_members(), "allOf"@, parts, target);
                lemma_pair(own, Json::Object(not_null()), target);
                assert(has_references(own));
            } else {
                lemma_described(not_null(), text_of(ty.description), target);
            }
            name
        },
        _ => name,
    }
}

proof fn lemma_required_texts(fields: Seq<InputField>)
    ensures
        forall|i: int|
            0 <= i < required_json(fields).len() ==> (#[trigger] required_json(fields)[i])
                is String,
    decreases fields.len(),
{
    if fields.len() > 0 {
        lemma_required_texts(fields.drop_last());
    }
}

proof fn lemma_same_target(a: Seq<char>, b: Seq<char>)
    requires
        "#/definitions/"@ + a == "#/definitions/"@ + b,
    ensures
        a == b,
{
    let prefix = "#/definitions/"@;
    assert(a =~= (prefix + a).skip(prefix.len() as int));
    assert(b =~= (prefix + b).skip(prefix.len() as int));
}

/// What is referred to, and is reached or has been there, has its definition once a root has
/// been walked.
proof fn lemma_reference_there(
    types: Types,
    scalars: Scalars,
    cached: Map<Seq<char>, Json>,
    roots: Set<Seq<char>>,
    mention: Seq<char>,
    name: Seq<char>,
)
    requires
        is_reference(referred(types, cached), mention, "#/definitions/"@ + name),
        roots.contains(mention) || exists|from: Seq<char>|
            #![trigger mentioned(types, from)]
            reached(types, cached, roots, from) && mentioned(types, from).contains(mention),
    ensures
        collected(types, scalars, cached, roots).contains_key(name),
{
    lemma_same_target(mention, name);
    if !cached.contains_key(name) {
        assert(leads_to(types, cached, name, name, 0));
        if !roots.contains(mention) {
            let from = choose|from: Seq<char>|
                #![trigger mentioned(types, from)]
                reached(types, cached, roots, from) && mentioned(types, from).contains(
                    mention,
                );
            let (start, n) = choose|start: Seq<char>, n: nat|
                roots.contains(start) && #[trigger] leads_to(types, cached, start, from, n);
            lemma_leads_to_missing(types, cached, start, from, n);
            assert(leads_to(types, cached, from, name, 1)) by {
                assert(mentioned(types, from).contains(name));
                assert((1nat - 1) as nat == 0nat);
            }
            lemma_leads_to_trans(types, cached, start, from, name, n, 1);
        }
        assert(reached(types, cached, roots, name));
    }
}

/// References stay resolved: where the definitions that are there are complete, and the
/// operator's schemas hold no references, walking types, recursive or not, gives schemas
/// and definitions in which every reference to a definition has it, and no definition is left
/// with the null that holds its place.
pub proof fn law_references_stay_resolved(
    types: Types,
    scalars: Scalars,
    cached: Map<Seq<char>, Json>,
    roots: Set<Seq<char>>,
    ty: TypeView,
    description: Option<Seq<char>>,
)
    requires
        roots.contains(ty.inner_name()),
        complete(cached),
        plain_scalars(scalars),
    ensures
        complete(collected(types, scalars, cached, roots)),
        dangling_free(
            type_json(referred(types, cached), ty, description),
            collected(types, scalars, cached, roots),
        ),
{
    let names = referred(types, cached);
    let after = collected(types, scalars, cached, roots);
    let schema = type_json(names, ty, description);
    assert forall|name: Seq<char>| #[trigger]
        refers_to(schema, "#/definitions/"@ + name) implies after.contains_key(name) by {
        lemma_type(names, ty, description, "#/definitions/"@ + name);
        lemma_reference_there(types, scalars, cached, roots, ty.inner_name(), name);
    }
    assert forall|from: Seq<char>| #[trigger] after.contains_key(from) implies after[from]
        !is Null && dangling_free(after[from], after) by {
        if cached.contains_key(from) {
            assert(dangling_free(cached[from], cached));
            assert forall|name: Seq<char>| #[trigger]
                refers_to(after[from], "#/definitions/"@ + name) implies after.contains_key(
                name,
            ) by {
                assert(cached.contains_key(name));
            }
        } else {
            let (start, n) = choose|start: Seq<char>, n: nat|
                roots.contains(start) && #[trigger] leads_to(types, cached, start, from, n);
            lemma_leads_to_missing(types, cached, start, from, n);
            assert forall|name: Seq<char>| #[trigger]
                refers_to(after[from], "#/definitions/"@ + name) implies after.contains_key(
                name,
            ) by {
                let mention = lemma_definition(
                    types,
                    scalars,
                    names,
                    from,
                    "#/definitions/"@ + name,
                );
                assert(mentioned(types, from).contains(mention));
                lemma_reference_there(types, scalars, cached, roots, mention, name);
            }
        }
    }
}

} // verus!
