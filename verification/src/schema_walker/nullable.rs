//! JSON Schemas that accept null.

use crate::json::{self, Json, Ordered, PartsRef};
use crate::text::same_text;
use serde_json::Value;
use vstd::prelude::*;

verus! {

/// The schema of null alone.
pub open spec fn null_schema() -> Json {
    json::singleton("type"@, json::text("null"@))
}

/// Whether the value of a "type" keyword names null.
pub open spec fn type_names_null(ty: Json) -> bool {
    match ty {
        Json::String(s) => s == "null"@,
        Json::Array(types) => types.contains(json::text("null"@)),
        _ => false,
    }
}

/// The member that lists the alternatives of a schema: "oneOf", or "anyOf" where
/// there is no "oneOf".
pub open spec fn alternatives_key(schema: Map<Seq<char>, Json>) -> Seq<char> {
    if schema.contains_key("oneOf"@) {
        "oneOf"@
    } else {
        "anyOf"@
    }
}

/// Whether the member is there and is an array.
pub open spec fn has_array(schema: Map<Seq<char>, Json>, key: Seq<char>) -> bool {
    schema.contains_key(key) && schema[key] is Array
}

/// Whether a schema is seen to accept null without following references. The first
/// keyword that is there decides: "$ref" (never), "type", the alternatives, "enum"
/// and "const". A schema with none of them is open.
pub open spec fn allows_null(schema: Json) -> bool
    decreases schema,
{
    match schema {
        Json::Object(m) => {
            if m.contains_key("$ref"@) {
                false
            } else if m.contains_key("type"@) {
                type_names_null(m["type"@])
            } else if has_array(m, alternatives_key(m)) {
                exists|i: int|
                    0 <= i < m[alternatives_key(m)]->Array_0.len() && allows_null(
                        #[trigger] m[alternatives_key(m)]->Array_0[i],
                    )
            } else if has_array(m, "enum"@) {
                m["enum"@]->Array_0.contains(Json::Null)
            } else if m.contains_key("const"@) {
                m["const"@] is Null
            } else {
                true
            }
        },
        _ => false,
    }
}

/// Whether null is valid against a JSON Schema, where `refs` says it of the targets
/// of references by "$ref". Every keyword that is there has to be met; those that speak of
/// strings, numbers, arrays or objects are met by null.
pub open spec fn accepts_null(schema: Json, refs: spec_fn(Seq<char>) -> bool) -> bool
    decreases schema,
{
    match schema {
        Json::Bool(accept) => accept,
        Json::Object(m) => {
            &&& m.contains_key("$ref"@) ==> m["$ref"@] is String && refs(m["$ref"@]->String_0)
            &&& m.contains_key("type"@) ==> type_names_null(m["type"@])
            &&& m.contains_key("enum"@) && m["enum"@] is Array
                ==> m["enum"@]->Array_0.contains(Json::Null)
            &&& m.contains_key("const"@) ==> m["const"@] is Null
            &&& m.contains_key("not"@) ==> !accepts_null(m["not"@], refs)
            &&& m.contains_key("if"@) ==> if accepts_null(m["if"@], refs) {
                m.contains_key("then"@) ==> accepts_null(m["then"@], refs)
            } else {
                m.contains_key("else"@) ==> accepts_null(m["else"@], refs)
            }
            &&& m.contains_key("allOf"@) && m["allOf"@] is Array ==> forall|i: int|
                0 <= i < m["allOf"@]->Array_0.len() ==> accepts_null(
                    #[trigger] m["allOf"@]->Array_0[i],
                    refs,
                )
            &&& m.contains_key("anyOf"@) && m["anyOf"@] is Array ==> exists|i: int|
                0 <= i < m["anyOf"@]->Array_0.len() && accepts_null(
                    #[trigger] m["anyOf"@]->Array_0[i],
                    refs,
                )
            &&& m.contains_key("oneOf"@) && m["oneOf"@] is Array ==> exists|i: int|
                0 <= i < m["oneOf"@]->Array_0.len() && accepts_null(
                    #[trigger] m["oneOf"@]->Array_0[i],
                    refs,
                ) && forall|j: int|
                    0 <= j < m["oneOf"@]->Array_0.len() && j != i ==> !accepts_null(
                        #[trigger] m["oneOf"@]->Array_0[j],
                        refs,
                    )
        },
        _ => false,
    }
}

/// Says of each reference that its target does not accept null.
pub open spec fn no_references() -> spec_fn(Seq<char>) -> bool {
    |target: Seq<char>| false
}

/// The schema that accepts null besides what the given one accepts: the schema itself where
/// null is valid against it, else a union of it and null. What stands behind a reference is
/// taken to reject null, as every definition does.
pub open spec fn nullable_json(schema: Json) -> Json {
    if accepts_null(schema, no_references()) {
        schema
    } else {
        json::singleton("oneOf"@, Json::Array(seq![schema, null_schema()]))
    }
}

/// The schema that accepts null besides what the given one accepts, with its members in
/// order.
pub open spec fn nullable_layout(schema: Ordered) -> Ordered {
    if accepts_null(json::plain(schema), no_references()) {
        schema
    } else {
        json::ordered_singleton(
            "oneOf"@,
            Ordered::Array(
                seq![
                    json::written(schema),
                    json::ordered_singleton("type"@, Ordered::String("null"@)),
                ],
            ),
        )
    }
}

/// Whether the value of a "type" keyword names null.
pub fn type_includes_null(ty: &Value) -> (r: bool)
    ensures
        r == type_names_null(json::json(*ty)),
{
    match json::parts_of(ty) {
        PartsRef::String(s) => same_text(s, "null"),
        PartsRef::Array(types) => {
            let ghost all = json::jsons(types@);
            let n: usize = types.len();
            for i in 0..n
                invariant
                    n == types@.len(),
                    all == json::jsons(types@),
                    json::json(*ty) == Json::Array(all),
                    forall|j: int| 0 <= j < i ==> #[trigger] all[j] != json::text("null"@),
            {
                if let PartsRef::String(s) = json::parts_of(&types[i]) {
                    if same_text(s, "null") {
                        assert(all[i as int] == json::text("null"@));
                        return true;
                    }
                }
            }
            false
        },
        _ => false,
    }
}

/// Whether a list of values holds null.
fn contains_null(items: &Vec<Value>) -> (r: bool)
    ensures
        r == json::jsons(items@).contains(Json::Null),
{
    let ghost all = json::jsons(items@);
    let n: usize = items.len();
    for i in 0..n
        invariant
            n == items@.len(),
            all == json::jsons(items@),
            forall|j: int| 0 <= j < i ==> #[trigger] all[j] != Json::Null,
    {
        if let PartsRef::Null = json::parts_of(&items[i]) {
            assert(all[i as int] == Json::Null);
            return true;
        }
    }
    false
}

/// Whether a schema is seen to accept null.
pub fn already_allows_null(schema: &Value) -> (r: bool)
    ensures
        r == allows_null(json::json(*schema)),
    decreases json::json(*schema),
{
    let object = match json::parts_of(schema) {
        PartsRef::Object(object) => object,
        _ => return false,
    };
    let ghost m = json::members(*object);
    if json::get(object, "$ref").is_some() {
        return false;
    }
    if let Some(ty) = json::get(object, "type") {
        return type_includes_null(ty);
    }
    let alternatives = match json::get(object, "oneOf") {
        Some(one_of) => Some(one_of),
        None => json::get(object, "anyOf"),
    };
    if let Some(value) = alternatives {
        if let PartsRef::Array(items) = json::parts_of(value) {
            let ghost all = m[alternatives_key(m)]->Array_0;
            let n: usize = items.len();
            for i in 0..n
                invariant
                    n == items@.len(),
                    m == json::members(*object),
                    json::json(*schema) == Json::Object(m),
                    !m.contains_key("$ref"@),
                    !m.contains_key("type"@),
                    has_array(m, alternatives_key(m)),
                    all == m[alternatives_key(m)]->Array_0,
                    all == json::jsons(items@),
                    forall|j: int| 0 <= j < i ==> !allows_null(#[trigger] all[j]),
            {
                assert(all[i as int] == json::json(items@[i as int]));
                assert(decreases_to!(json::json(*schema) => json::json(
                    *schema,
                )->Object_0[alternatives_key(m)]->Array_0[i as int]));
                if already_allows_null(&items[i]) {
                    return true;
                }
            }
            return false;
        }
    }
    if let Some(value) = json::get(object, "enum") {
        if let PartsRef::Array(items) = json::parts_of(value) {
            return contains_null(items);
        }
    }
    match json::get(object, "const") {
        Some(constant) => match json::parts_of(constant) {
            PartsRef::Null => true,
            _ => false,
        },
        None => true,
    }
}

/// How many of some schemas accept null: any, all, exactly one.
struct Tally {
    any: bool,
    all: bool,
    one: bool,
}

/// How many of the schemas in an array accept null.
fn tally(value: &Value) -> (r: Option<Tally>)
    ensures
        match (json::json(*value), r) {
            (Json::Array(items), Some(tally)) => {
                &&& tally.any == exists|i: int|
                    0 <= i < items.len() && accepts_null(#[trigger] items[i], no_references())
                &&& tally.all == forall|i: int|
                    0 <= i < items.len() ==> accepts_null(#[trigger] items[i], no_references())
                &&& tally.one == exists|i: int|
                    0 <= i < items.len() && accepts_null(#[trigger] items[i], no_references())
                        && forall|j: int|
                        0 <= j < items.len() && j != i ==> !accepts_null(
                            #[trigger] items[j],
                            no_references(),
                        )
            },
            (Json::Array(_), None) => false,
            (_, Some(_)) => false,
            (_, None) => true,
        },
    decreases json::json(*value),
{
    let items = match json::parts_of(value) {
        PartsRef::Array(items) => items,
        _ => return None,
    };
    let ghost all_items = json::jsons(items@);
    let ghost mut first: int = 0;
    let mut any: bool = false;
    let mut all: bool = true;
    let mut many: bool = false;
    let n: usize = items.len();
    for i in 0..n
        invariant
            n == items@.len(),
            all_items == json::jsons(items@),
            json::json(*value) == Json::Array(all_items),
            any ==> 0 <= first < i && accepts_null(all_items[first], no_references()),
            !many ==> forall|j: int|
                0 <= j < i && (!any || j != first) ==> !accepts_null(
                    #[trigger] all_items[j],
                    no_references(),
                ),
            many ==> any && exists|j: int|
                0 <= j < i && j != first && accepts_null(#[trigger] all_items[j], no_references()),
            all == forall|j: int|
                0 <= j < i ==> accepts_null(#[trigger] all_items[j], no_references()),
    {
        assert(all_items[i as int] == json::json(items@[i as int]));
        assert(decreases_to!(json::json(*value) => json::json(*value)->Array_0[i as int]));
        if accepts_null_itself(&items[i]) {
            if any {
                many = true;
            } else {
                proof {
                    first = i as int;
                }
            }
            any = true;
        } else {
            all = false;
        }
    }
    proof {
        let items = json::json(*value)->Array_0;
        assert(items == all_items);
        if any {
            assert(accepts_null(items[first], no_references()));
        }
        if many {
            let other = choose|j: int|
                0 <= j < n && j != first && accepts_null(#[trigger] all_items[j], no_references());
            assert forall|i: int|
                0 <= i < items.len() && accepts_null(
                    #[trigger] items[i],
                    no_references(),
                ) implies exists|j: int|
                0 <= j < items.len() && j != i && accepts_null(
                    #[trigger] items[j],
                    no_references(),
                ) by {
                if i == first {
                    assert(accepts_null(items[other], no_references()));
                } else {
                    assert(accepts_null(items[first], no_references()));
                }
            }
        }
    }
    Some(Tally { any, all, one: any && !many })
}

/// Whether null is valid against a schema, where what stands behind a reference rejects it.
pub fn accepts_null_itself(schema: &Value) -> (r: bool)
    ensures
        r == accepts_null(json::json(*schema), no_references()),
    decreases json::json(*schema),
{
    let object = match json::parts_of(schema) {
        PartsRef::Bool(accept) => return accept,
        PartsRef::Object(object) => object,
        _ => return false,
    };
    let ghost m = json::members(*object);
    let ghost whole = json::json(*schema);
    assert(whole->Object_0 == m);
    if json::get(object, "$ref").is_some() {
        return false;
    }
    if let Some(ty) = json::get(object, "type") {
        if !type_includes_null(ty) {
            return false;
        }
    }
    if let Some(values) = json::get(object, "enum") {
        if let PartsRef::Array(items) = json::parts_of(values) {
            if !contains_null(items) {
                return false;
            }
        }
    }
    if let Some(constant) = json::get(object, "const") {
        match json::parts_of(constant) {
            PartsRef::Null => {},
            _ => return false,
        }
    }
    if let Some(negated) = json::get(object, "not") {
        assert(decreases_to!(whole => whole->Object_0["not"@]));
        if accepts_null_itself(negated) {
            return false;
        }
    }
    if let Some(condition) = json::get(object, "if") {
        assert(decreases_to!(whole => whole->Object_0["if"@]));
        let branch = if accepts_null_itself(condition) {
            json::get(object, "then")
        } else {
            json::get(object, "else")
        };
        if let Some(consequence) = branch {
            proof {
                if accepts_null(m["if"@], no_references()) {
                    assert(decreases_to!(whole => whole->Object_0["then"@]));
                } else {
                    assert(decreases_to!(whole => whole->Object_0["else"@]));
                }
            }
            if !accepts_null_itself(consequence) {
                return false;
            }
        }
    }
    if let Some(all_of) = json::get(object, "allOf") {
        assert(decreases_to!(whole => whole->Object_0["allOf"@]));
        if let Some(tally) = tally(all_of) {
            if !tally.all {
                return false;
            }
        }
    }
    if let Some(any_of) = json::get(object, "anyOf") {
        assert(decreases_to!(whole => whole->Object_0["anyOf"@]));
        if let Some(tally) = tally(any_of) {
            if !tally.any {
                return false;
            }
        }
    }
    if let Some(one_of) = json::get(object, "oneOf") {
        assert(decreases_to!(whole => whole->Object_0["oneOf"@]));
        if let Some(tally) = tally(one_of) {
            if !tally.one {
                return false;
            }
        }
    }
    true
}

/// The schema that accepts null besides what the given one accepts: the schema itself where
/// null is valid against it, else a union of it and null. A reference is always wrapped:
/// every definition rejects null.
pub fn nullable(inner: Value) -> (r: Value)
    ensures
        json::json(r) == nullable_json(json::json(inner)),
        json::ordered(r) == nullable_layout(json::ordered(inner)),
{
    proof {
        json::lemma_json(inner);
    }
    if accepts_null_itself(&inner) {
        return inner;
    }
    let mut branches: Vec<Value> = Vec::new();
    let ghost (of, of_ordered) = (json::json(inner), json::written(json::ordered(inner)));
    branches.push(json::nested(inner));
    branches.push(json::single("type", json::string("null".to_owned())));
    assert(json::jsons(branches@) =~= seq![of, null_schema()]);
    assert(json::ordereds(branches@) =~= seq![
        of_ordered,
        json::ordered_singleton("type"@, Ordered::String("null"@)),
    ]);
    json::single("oneOf", json::array(branches))
}

} // verus!
