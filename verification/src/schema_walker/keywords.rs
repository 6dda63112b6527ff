//! What each keyword of a JSON Schema means for null.

use crate::json::Json;
use crate::schema_walker::nullable::{
    accepts_null, allows_null, no_references, nullable_json, type_names_null,
};
use vstd::prelude::*;

verus! {

/// The keywords are different words.
proof fn lemma_different_words()
    ensures
        "$ref"@.len() == 4,
        "$ref"@[0] == '$',
        "$ref"@[1] == 'r',
        "type"@.len() == 4,
        "type"@[0] == 't',
        "type"@[1] == 'y',
        "enum"@.len() == 4,
        "enum"@[0] == 'e',
        "enum"@[1] == 'n',
        "const"@.len() == 5,
        "const"@[0] == 'c',
        "const"@[1] == 'o',
        "not"@.len() == 3,
        "not"@[0] == 'n',
        "not"@[1] == 'o',
        "if"@.len() == 2,
        "if"@[0] == 'i',
        "if"@[1] == 'f',
        "then"@.len() == 4,
        "then"@[0] == 't',
        "then"@[1] == 'h',
        "else"@.len() == 4,
        "else"@[0] == 'e',
        "else"@[1] == 'l',
        "allOf"@.len() == 5,
        "allOf"@[0] == 'a',
        "allOf"@[1] == 'l',
        "anyOf"@.len() == 5,
        "anyOf"@[0] == 'a',
        "anyOf"@[1] == 'n',
        "oneOf"@.len() == 5,
        "oneOf"@[0] == 'o',
        "oneOf"@[1] == 'n',
{
    reveal_strlit("$ref");
    reveal_strlit("type");
    reveal_strlit("enum");
    reveal_strlit("const");
    reveal_strlit("not");
    reveal_strlit("if");
    reveal_strlit("then");
    reveal_strlit("else");
    reveal_strlit("allOf");
    reveal_strlit("anyOf");
    reveal_strlit("oneOf");
}

/// Null is valid against the schema that says true and against the one that says nothing, and
/// against no other value that is no object.
pub proof fn law_null_without_keywords(schema: Json, refs: spec_fn(Seq<char>) -> bool)
    ensures
        accepts_null(Json::Bool(true), refs),
        !accepts_null(Json::Bool(false), refs),
        accepts_null(Json::Object(Map::empty()), refs),
        !(schema is Object) && !(schema is Bool) ==> !accepts_null(schema, refs),
{
}

/// Whether null meets what one keyword says: a reference is met by what its target accepts, "type"
/// and "enum" have to name null, "const" has to be null, what "not" says has to reject it, each
/// schema of "allOf" has to accept it, some of "anyOf", and exactly one of "oneOf".
pub open spec fn meets(key: Seq<char>, value: Json, refs: spec_fn(Seq<char>) -> bool) -> bool {
    if key == "$ref"@ {
        value is String && refs(value->String_0)
    } else if key == "type"@ {
        value == Json::String("null"@) || (value is Array && exists|i: int|
            0 <= i < value->Array_0.len() && #[trigger] value->Array_0[i] == Json::String("null"@))
    } else if key == "enum"@ {
        value is Array ==> exists|i: int|
            0 <= i < value->Array_0.len() && #[trigger] value->Array_0[i] == Json::Null
    } else if key == "const"@ {
        value == Json::Null
    } else if key == "not"@ {
        !accepts_null(value, refs)
    } else if key == "allOf"@ {
        value is Array ==> forall|i: int|
            0 <= i < value->Array_0.len() ==> accepts_null(#[trigger] value->Array_0[i], refs)
    } else if key == "anyOf"@ {
        value is Array ==> exists|i: int|
            0 <= i < value->Array_0.len() && accepts_null(#[trigger] value->Array_0[i], refs)
    } else if key == "oneOf"@ {
        value is Array ==> exists|i: int|
            0 <= i < value->Array_0.len() && accepts_null(#[trigger] value->Array_0[i], refs)
                && forall|j: int|
                0 <= j < value->Array_0.len() && j != i ==> !accepts_null(
                    #[trigger] value->Array_0[j],
                    refs,
                )
    } else {
        true
    }
}

/// Each keyword adds its own demand to those of the others: null is valid against a schema with
/// one keyword more if and only if it was valid without it and meets that keyword. What does
/// not speak of null adds nothing.
pub proof fn law_each_keyword_has_to_be_met(
    m: Map<Seq<char>, Json>,
    key: Seq<char>,
    value: Json,
    refs: spec_fn(Seq<char>) -> bool,
)
    requires
        !m.contains_key(key),
        key != "if"@ && key != "then"@ && key != "else"@,
    ensures
        accepts_null(Json::Object(m.insert(key, value)), refs) <==> accepts_null(
            Json::Object(m),
            refs,
        ) && meets(key, value, refs),
{
    lemma_different_words();
    let after = m.insert(key, value);
    assert(forall|other: Seq<char>|
        other != key ==> after.contains_key(other) == m.contains_key(other));
    if key == "type"@ && value is Array {
        assert(value->Array_0.contains(Json::String("null"@)) <==> exists|i: int|
            0 <= i < value->Array_0.len() && #[trigger] value->Array_0[i] == Json::String(
                "null"@,
            ));
    }
    if key == "enum"@ && value is Array {
        assert(value->Array_0.contains(Json::Null) <==> exists|i: int|
            0 <= i < value->Array_0.len() && #[trigger] value->Array_0[i] == Json::Null);
    }
    assert(after[key] == value);
}

/// A condition asks for its consequence: where null is valid against "if", for "then", else for
/// "else". Without a condition neither is asked for, and a branch that is missing asks nothing.
pub proof fn law_conditions(
    m: Map<Seq<char>, Json>,
    condition: Json,
    yes: Json,
    no: Json,
    refs: spec_fn(Seq<char>) -> bool,
)
    requires
        !m.contains_key("if"@),
        !m.contains_key("then"@),
        !m.contains_key("else"@),
    ensures
        accepts_null(Json::Object(m.insert("then"@, yes).insert("else"@, no)), refs)
            == accepts_null(Json::Object(m), refs),
        accepts_null(Json::Object(m.insert("if"@, condition)), refs) == accepts_null(
            Json::Object(m),
            refs,
        ),
        accepts_null(
            Json::Object(m.insert("if"@, condition).insert("then"@, yes).insert("else"@, no)),
            refs,
        ) <==> accepts_null(Json::Object(m), refs) && if accepts_null(condition, refs) {
            accepts_null(yes, refs)
        } else {
            accepts_null(no, refs)
        },
        accepts_null(Json::Object(m.insert("if"@, condition).insert("then"@, yes)), refs)
            <==> accepts_null(Json::Object(m), refs) && (accepts_null(condition, refs)
            ==> accepts_null(yes, refs)),
        accepts_null(Json::Object(m.insert("if"@, condition).insert("else"@, no)), refs)
            <==> accepts_null(Json::Object(m), refs) && (!accepts_null(condition, refs)
            ==> accepts_null(no, refs)),
{
    lemma_different_words();
}

/// A schema is left as it is where null is valid against it already, taking it that no definition
/// accepts null. Any other becomes the union of itself and null.
pub proof fn law_nullable(schema: Json)
    ensures
        accepts_null(schema, |target: Seq<char>| false) ==> nullable_json(schema) == schema,
        !accepts_null(schema, |target: Seq<char>| false) ==> nullable_json(schema) == Json::Object(
            Map::<Seq<char>, Json>::empty().insert(
                "oneOf"@,
                Json::Array(
                    seq![
                        schema,
                        Json::Object(
                            Map::<Seq<char>, Json>::empty().insert(
                                "type"@,
                                Json::String("null"@),
                            ),
                        ),
                    ],
                ),
            ),
        ),
{
    let none = |target: Seq<char>| false;
    assert(none =~= no_references());
}

/// Without following references, the first keyword that is there decides whether null is seen to
/// be valid: "$ref" says no, "type" whether it names null, the alternatives whether some of them
/// does, "enum" whether it lists null, "const" whether it is null. With none of them null is
/// valid. What is no object says no.
pub proof fn law_the_first_keyword_decides(m: Map<Seq<char>, Json>, other: Json)
    ensures
        !(other is Object) ==> !allows_null(other),
        m.contains_key("$ref"@) ==> !allows_null(Json::Object(m)),
        !m.contains_key("$ref"@) && m.contains_key("type"@) ==> (allows_null(Json::Object(m))
            <==> meets("type"@, m["type"@], no_references())),
        !m.contains_key("$ref"@) && !m.contains_key("type"@) && m.contains_key("oneOf"@)
            && m["oneOf"@] is Array ==> (allows_null(Json::Object(m)) <==> exists|i: int|
            0 <= i < m["oneOf"@]->Array_0.len() && allows_null(
                #[trigger] m["oneOf"@]->Array_0[i],
            )),
        !m.contains_key("$ref"@) && !m.contains_key("type"@) && !m.contains_key("oneOf"@)
            && m.contains_key("anyOf"@) && m["anyOf"@] is Array ==> (allows_null(Json::Object(m))
            <==> exists|i: int|
            0 <= i < m["anyOf"@]->Array_0.len() && allows_null(
                #[trigger] m["anyOf"@]->Array_0[i],
            )),
        ({
            let alternatives = if m.contains_key("oneOf"@) {
                m["oneOf"@] is Array
            } else {
                m.contains_key("anyOf"@) && m["anyOf"@] is Array
            };
            let open = !m.contains_key("$ref"@) && !m.contains_key("type"@) && !alternatives;
            &&& open && m.contains_key("enum"@) && m["enum"@] is Array ==> (allows_null(
                Json::Object(m),
            ) <==> exists|i: int|
                0 <= i < m["enum"@]->Array_0.len() && #[trigger] m["enum"@]->Array_0[i]
                    == Json::Null)
            &&& open && !(m.contains_key("enum"@) && m["enum"@] is Array) && m.contains_key(
                "const"@,
            ) ==> (allows_null(Json::Object(m)) <==> m["const"@] == Json::Null)
            &&& open && !(m.contains_key("enum"@) && m["enum"@] is Array) && !m.contains_key(
                "const"@,
            ) ==> allows_null(Json::Object(m))
        }),
{
    lemma_different_words();
    if m.contains_key("type"@) && m["type"@] is Array {
        let types = m["type"@]->Array_0;
        assert(types.contains(Json::String("null"@)) <==> exists|i: int|
            0 <= i < types.len() && #[trigger] types[i] == Json::String("null"@));
        assert(type_names_null(m["type"@]) == types.contains(Json::String("null"@)));
    }
    if m.contains_key("enum"@) && m["enum"@] is Array {
        let values = m["enum"@]->Array_0;
        assert(values.contains(Json::Null) <==> exists|i: int|
            0 <= i < values.len() && #[trigger] values[i] == Json::Null);
    }
}

/// A "type" names null if and only if it is "null" or an array that holds "null".
pub proof fn law_types_that_name_null(ty: Json)
    ensures
        type_names_null(ty) <==> meets("type"@, ty, no_references()),
{
    lemma_different_words();
    if ty is Array {
        assert(ty->Array_0.contains(Json::String("null"@)) <==> exists|i: int|
            0 <= i < ty->Array_0.len() && #[trigger] ty->Array_0[i] == Json::String("null"@));
    }
}

} // verus!
