//! Which JSON Schemas accept null, and that GraphQL nullability decides it for the
//! schemas of GraphQL types.

use crate::graphql::{ExtendedType, InputField, TypeView};
use crate::json::{self, Json};
use crate::schema_walker::definitions::{
    array_json, basic_type, defined, definition, described, fields_json, name_json, name_members,
    not_null, own_description, referred, type_json, Scalars,
};
use crate::schema_walker::layout::{collected_layout, type_layout, Entries};
use crate::schema_walker::nullable::{
    accepts_null, allows_null, alternatives_key, no_references, null_schema, nullable_json,
    nullable_layout,
};
use crate::schema_walker::reachable::{
    collected, field_of, leads_to, lemma_leads_to_missing, lemma_leads_to_trans, mentioned,
    reached, Types,
};
use crate::schema_walker::references::{has_references, lemma_rejecting_references, refers_to};
use crate::text::text_of;
use vstd::prelude::*;

verus! {

/// Whether `refs` says of each definition's reference whether null is valid against
/// the definition.
pub open spec fn resolves(
    definitions: Map<Seq<char>, Json>,
    refs: spec_fn(Seq<char>) -> bool,
) -> bool {
    forall|name: Seq<char>| #[trigger]
        definitions.contains_key(name) ==> refs("#/definitions/"@ + name) == accepts_null(
            definitions[name],
            refs,
        )
}

/// Whether a name is one that the schemas of types know: a basic type, or one that
/// gets a definition.
pub open spec fn known(types: Types, name: Seq<char>) -> bool {
    basic_type(name) is Some || defined(types, name)
}

/// Whether null is a value of a GraphQL type: of each that is not non-null. Nothing
/// is known of a type that the schema lacks, and null is not ruled out there either.
pub open spec fn admits_null(types: Types, ty: TypeView) -> bool {
    !ty.non_null() || (!ty.list() && !known(types, ty.inner_name()))
}

/// The keywords are different words.
proof fn lemma_keywords()
    ensures
        "$ref"@.len() == 4,
        "$ref"@[0] == '$',
        "type"@.len() == 4,
        "type"@[0] == 't',
        "enum"@.len() == 4,
        "enum"@[0] == 'e',
        "const"@.len() == 5,
        "const"@[0] == 'c',
        "not"@.len() == 3,
        "if"@.len() == 2,
        "allOf"@.len() == 5,
        "allOf"@[1] == 'l',
        "allOf"@[0] == 'a',
        "anyOf"@.len() == 5,
        "anyOf"@[0] == 'a',
        "anyOf"@[1] == 'n',
        "oneOf"@.len() == 5,
        "oneOf"@[0] == 'o',
        "items"@.len() == 5,
        "items"@[0] == 'i',
        "description"@.len() == 11,
        "properties"@.len() == 10,
        "required"@.len() == 8,
        "null"@.len() == 4,
        "string"@.len() == 6,
        "number"@.len() == 6,
        "integer"@.len() == 7,
        "boolean"@.len() == 7,
        "object"@.len() == 6,
        "array"@.len() == 5,
{
    reveal_strlit("$ref");
    reveal_strlit("type");
    reveal_strlit("enum");
    reveal_strlit("const");
    reveal_strlit("not");
    reveal_strlit("if");
    reveal_strlit("allOf");
    reveal_strlit("anyOf");
    reveal_strlit("oneOf");
    reveal_strlit("items");
    reveal_strlit("description");
    reveal_strlit("properties");
    reveal_strlit("required");
    reveal_strlit("null");
    reveal_strlit("string");
    reveal_strlit("number");
    reveal_strlit("integer");
    reveal_strlit("boolean");
    reveal_strlit("object");
    reveal_strlit("array");
}

proof fn lemma_null_schema(refs: spec_fn(Seq<char>) -> bool)
    ensures
        accepts_null(null_schema(), refs),
{
    lemma_keywords();
}

proof fn lemma_nullable(schema: Json, refs: spec_fn(Seq<char>) -> bool)
    requires
        accepts_null(schema, refs) == accepts_null(schema, no_references()),
    ensures
        accepts_null(nullable_json(schema), refs),
{
    lemma_keywords();
    lemma_null_schema(refs);
    if !accepts_null(schema, no_references()) {
        let m = nullable_json(schema)->Object_0;
        assert(m["oneOf"@] == Json::Array(seq![schema, null_schema()]));
        assert(m["oneOf"@]->Array_0[0] == schema);
        assert(accepts_null(m["oneOf"@]->Array_0[1], refs));
    }
}

/// A schema that has been made nullable accepts null: each that has no references, whatever
/// it accepted before.
pub proof fn law_nullable_accepts_null(schema: Json, refs: spec_fn(Seq<char>) -> bool)
    requires
        !has_references(schema),
    ensures
        accepts_null(nullable_json(schema), refs),
{
    lemma_rejecting_references(schema, refs);
    lemma_nullable(schema, refs);
}

/// The same holds of a schema with references, where what they refer to rejects null.
pub proof fn law_nullable_reference_accepts_null(schema: Json, refs: spec_fn(Seq<char>) -> bool)
    requires
        forall|target: Seq<char>| refers_to(schema, target) ==> !refs(target),
    ensures
        accepts_null(nullable_json(schema), refs),
{
    lemma_rejecting_references(schema, refs);
    lemma_nullable(schema, refs);
}

/// A schema is left as it is only where null is valid against it already.
pub proof fn law_nullable_leaves_what_accepts_null(schema: Json)
    requires
        nullable_json(schema) == schema,
    ensures
        accepts_null(schema, no_references()),
{
    if !accepts_null(schema, no_references()) {
        let m = schema->Object_0;
        assert(m["oneOf"@] == Json::Array(seq![schema, null_schema()]));
        assert(decreases_to!(schema => schema->Object_0["oneOf"@]->Array_0[0]));
    }
}

/// A definition rejects null, whatever an operator's schema for a custom scalar
/// accepts.
pub proof fn law_definitions_reject_null(
    types: Types,
    scalars: Scalars,
    names: Set<Seq<char>>,
    name: Seq<char>,
    refs: spec_fn(Seq<char>) -> bool,
)
    requires
        defined(types, name),
    ensures
        !accepts_null(definition(types, scalars, names, name), refs),
{
    lemma_keywords();
    lemma_null_schema(refs);
    if let ExtendedType::Scalar(ty) = types[name] {
        let m = definition(types, scalars, names, name)->Object_0;
        if let Some(map) = scalars {
            if map.contains_key(name) {
                let items = seq![json::json(map[name]), Json::Object(not_null())];
                assert(m["allOf"@] == Json::Array(items));
                assert(m["allOf"@]->Array_0[1] == Json::Object(not_null()));
                assert(!accepts_null(Json::Object(not_null()), refs));
            }
        }
    }
}

/// Whether the name has its definition, where it gets one.
spec fn has_definition(
    types: Types,
    scalars: Scalars,
    definitions: Map<Seq<char>, Json>,
    name: Seq<char>,
) -> bool {
    defined(types, name) ==> definitions.contains_key(name) && definitions[name] == definition(
        types,
        scalars,
        referred(types, json::no_members()),
        name,
    )
}

/// The schema of a named type accepts null only where the type is unknown.
proof fn lemma_name(
    types: Types,
    scalars: Scalars,
    definitions: Map<Seq<char>, Json>,
    name: Seq<char>,
    description: Option<Seq<char>>,
    refs: spec_fn(Seq<char>) -> bool,
)
    requires
        has_definition(types, scalars, definitions, name),
        resolves(definitions, refs),
    ensures
        accepts_null(name_json(referred(types, json::no_members()), name, description), refs)
            == !known(types, name),
        accepts_null(
            name_json(referred(types, json::no_members()), name, description),
            no_references(),
        ) == !known(types, name),
{
    lemma_keywords();
    let names = referred(types, json::no_members());
    let m = described(name_members(names, name), description);
    if defined(types, name) {
        law_definitions_reject_null(types, scalars, names, name, refs);
        assert(m["$ref"@] == json::text("#/definitions/"@ + name));
    }
}

proof fn lemma_type(
    types: Types,
    scalars: Scalars,
    definitions: Map<Seq<char>, Json>,
    ty: TypeView,
    description: Option<Seq<char>>,
    refs: spec_fn(Seq<char>) -> bool,
)
    requires
        has_definition(types, scalars, definitions, ty.inner_name()),
        resolves(definitions, refs),
    ensures
        accepts_null(type_json(referred(types, json::no_members()), ty, description), refs)
            <==> admits_null(types, ty),
{
    lemma_keywords();
    lemma_null_schema(refs);
    let names = referred(types, json::no_members());
    let inner = match ty {
        TypeView::Named(name) => name_json(names, name, description),
        TypeView::NonNullNamed(name) => name_json(names, name, description),
        TypeView::List(item) => array_json(type_json(names, *item, description)),
        TypeView::NonNullList(item) => array_json(type_json(names, *item, description)),
    };
    if !ty.list() {
        lemma_name(types, scalars, definitions, ty.inner_name(), description, refs);
    } else {
        assert(!accepts_null(inner, refs));
        assert(!accepts_null(inner, no_references()));
    }
    if !ty.non_null() {
        lemma_nullable(inner, refs);
    }
}

/// GraphQL nullability is authoritative: null is valid against the schema of a type
/// if and only if the GraphQL type admits null, whatever the operator's schemas for
/// custom scalars say.
pub proof fn law_nullability_is_authoritative(
    types: Types,
    scalars: Scalars,
    roots: Set<Seq<char>>,
    ty: TypeView,
    description: Option<Seq<char>>,
    refs: spec_fn(Seq<char>) -> bool,
)
    requires
        roots.contains(ty.inner_name()),
        resolves(collected(types, scalars, json::no_members(), roots), refs),
    ensures
        accepts_null(type_json(referred(types, json::no_members()), ty, description), refs)
            <==> admits_null(types, ty),
{
    if defined(types, ty.inner_name()) {
        law_references_resolve(types, scalars, roots, ty.inner_name());
    }
    lemma_type(
        types,
        scalars,
        collected(types, scalars, json::no_members(), roots),
        ty,
        description,
        refs,
    );
}

/// The same holds inside the definitions: null is valid against the schema of an
/// input object's field if and only if the type of the field admits null.
pub proof fn law_field_nullability_is_authoritative(
    types: Types,
    scalars: Scalars,
    roots: Set<Seq<char>>,
    name: Seq<char>,
    i: int,
    refs: spec_fn(Seq<char>) -> bool,
)
    requires
        defined(types, name),
        types[name] is InputObject,
        collected(types, scalars, json::no_members(), roots).contains_key(name),
        0 <= i < types[name]->InputObject_0.fields@.len(),
        forall|j: int|
            i < j < types[name]->InputObject_0.fields@.len() ==> (
            #[trigger] types[name]->InputObject_0.fields@[j]).name@
                != types[name]->InputObject_0.fields@[i].name@,
        resolves(collected(types, scalars, json::no_members(), roots), refs),
    ensures
        ({
            let field = types[name]->InputObject_0.fields@[i];
            let properties = collected(types, scalars, json::no_members(), roots)[name]
                ->Object_0["properties"@];
            &&& properties is Object
            &&& properties->Object_0.contains_key(field.name@)
            &&& accepts_null(properties->Object_0[field.name@], refs) <==> admits_null(
                types,
                field.ty.view(),
            )
        }),
{
    lemma_keywords();
    let definitions = collected(types, scalars, json::no_members(), roots);
    let names = referred(types, json::no_members());
    let fields = types[name]->InputObject_0.fields@;
    let inner = fields[i].ty.view().inner_name();
    assert(field_of(fields[i], inner));
    assert(mentioned(types, name).contains(inner));
    assert(definitions[name] == definition(types, scalars, names, name));
    if defined(types, inner) {
        law_references_resolve(types, scalars, roots, inner);
    }
    lemma_last_field(names, fields, i);
    lemma_type(
        types,
        scalars,
        definitions,
        fields[i].ty.view(),
        text_of(fields[i].description),
        refs,
    );
}

/// The property of a name is that of the last field of that name.
proof fn lemma_last_field(names: Set<Seq<char>>, fields: Seq<InputField>, i: int)
    requires
        0 <= i < fields.len(),
        forall|j: int| i < j < fields.len() ==> (#[trigger] fields[j]).name@ != fields[i].name@,
    ensures
        fields_json(names, fields).contains_key(fields[i].name@),
        fields_json(names, fields)[fields[i].name@] == type_json(
            names,
            fields[i].ty.view(),
            text_of(fields[i].description),
        ),
    decreases fields.len(),
{
    if i < fields.len() - 1 {
        assert(fields.drop_last()[i] == fields[i]);
        assert(fields.last() == fields[fields.len() - 1]);
        lemma_last_field(names, fields.drop_last(), i);
    }
}

/// References resolve: every root that gets a definition has one once the roots have
/// been walked, and so has every type that one of the definitions mentions.
pub proof fn law_references_resolve(
    types: Types,
    scalars: Scalars,
    roots: Set<Seq<char>>,
    name: Seq<char>,
)
    requires
        defined(types, name),
        roots.contains(name) || exists|from: Seq<char>| #[trigger]
            collected(types, scalars, json::no_members(), roots).contains_key(from) && mentioned(
                types,
                from,
            ).contains(name),
    ensures
        collected(types, scalars, json::no_members(), roots).contains_key(name),
        collected(types, scalars, json::no_members(), roots)[name] == definition(
            types,
            scalars,
            referred(types, json::no_members()),
            name,
        ),
{
    let none = json::no_members();
    assert(leads_to(types, none, name, name, 0));
    if !roots.contains(name) {
        let from = choose|from: Seq<char>| #[trigger]
            collected(types, scalars, none, roots).contains_key(from) && mentioned(
                types,
                from,
            ).contains(name);
        let (root, n) = choose|root: Seq<char>, n: nat|
            roots.contains(root) && #[trigger] leads_to(types, none, root, from, n);
        lemma_leads_to_missing(types, none, root, from, n);
        assert(leads_to(types, none, from, name, 1)) by {
            assert(mentioned(types, from).contains(name));
            assert(leads_to(types, none, name, name, 0));
            assert((1nat - 1) as nat == 0nat);
        }
        lemma_leads_to_trans(
            types,
            none,
            root,
            from,
            name,
            n,
            1,
        );
        assert(reached(types, none, roots, name));
    }
}

/// The schema of what is not valid against another.
pub open spec fn negation(schema: Json, description: Option<Seq<char>>) -> Json {
    Json::Object(described(json::no_members().insert("not"@, schema), description))
}

/// The schema of what is valid against each of some.
pub open spec fn conjunction(schemas: Seq<Json>, description: Option<Seq<char>>) -> Json {
    Json::Object(described(json::no_members().insert("allOf"@, Json::Array(schemas)), description))
}

/// The schema of what is valid against exactly one of two.
pub open spec fn alternative(a: Json, b: Json) -> Json {
    json::singleton("oneOf"@, Json::Array(seq![a, b]))
}

/// Whether `valid` says of schemas whether some value other than null is valid against
/// them, as far as it heeds what "not", "allOf" and "oneOf" mean.
pub open spec fn judges_non_null(valid: spec_fn(Json) -> bool) -> bool {
    &&& !valid(null_schema())
    &&& forall|schema: Json, description: Option<Seq<char>>|
        valid(#[trigger] negation(schema, description)) == !valid(schema)
    &&& forall|schemas: Seq<Json>, description: Option<Seq<char>>|
        valid(#[trigger] conjunction(schemas, description)) == (forall|i: int|
            0 <= i < schemas.len() ==> valid(#[trigger] schemas[i]))
    &&& forall|a: Json, b: Json| valid(#[trigger] alternative(a, b)) == (valid(a) != valid(b))
}

/// Making a schema nullable changes nothing for the values other than null.
pub proof fn law_nullable_keeps_other_values(schema: Json, valid: spec_fn(Json) -> bool)
    requires
        judges_non_null(valid),
    ensures
        valid(nullable_json(schema)) == valid(schema),
{
    if !accepts_null(schema, no_references()) {
        assert(nullable_json(schema) == alternative(schema, null_schema()));
    }
}

/// The operator's schema for a custom scalar governs the values other than null: they are
/// valid against the scalar's definition if and only if they are valid against that schema.
/// Without one, each of them is valid.
pub proof fn law_operator_schema_governs_other_values(
    types: Types,
    scalars: Scalars,
    names: Set<Seq<char>>,
    name: Seq<char>,
    valid: spec_fn(Json) -> bool,
)
    requires
        defined(types, name),
        types[name] is Scalar,
        judges_non_null(valid),
    ensures
        valid(definition(types, scalars, names, name)) == match scalars {
            Some(map) => map.contains_key(name) ==> valid(json::json(map[name])),
            None => true,
        },
{
    let description = text_of(types[name]->Scalar_0.description);
    let rest = negation(null_schema(), None);
    assert(rest == Json::Object(not_null()));
    if scalars is Some && scalars->0.contains_key(name) {
        let own = json::json(scalars->0[name]);
        let schemas = seq![own, rest];
        let d = match own_description(own) {
            Some(d) => Some(d),
            None => description,
        };
        assert(definition(types, scalars, names, name) == conjunction(schemas, d));
        assert(schemas[0] == own && schemas[1] == rest);
        assert forall|i: int| 0 <= i < schemas.len() && valid(own) implies valid(
            #[trigger] schemas[i],
        ) by {}
    } else {
        assert(definition(types, scalars, names, name) == negation(null_schema(), description));
    }
}

/// Nullability only adds null, at the one level where it stands: the schema of a nullable type
/// is the schema of its non-null form made nullable, and the two lead to the same definitions.
/// The members stand in the same order too.
pub proof fn law_nullability_only_adds_null(
    types: Types,
    scalars: Scalars,
    cached: Map<Seq<char>, Json>,
    entries: Entries,
    ty: TypeView,
    description: Option<Seq<char>>,
)
    requires
        !ty.non_null(),
    ensures
        ty.strict().non_null(),
        type_json(referred(types, cached), ty, description) == nullable_json(
            type_json(referred(types, cached), ty.strict(), description),
        ),
        collected(types, scalars, cached, set![ty.inner_name()]) == collected(
            types,
            scalars,
            cached,
            set![ty.strict().inner_name()],
        ),
        type_layout(referred(types, cached), ty, description) == nullable_layout(
            type_layout(referred(types, cached), ty.strict(), description),
        ),
        collected_layout(types, scalars, entries, seq![ty.inner_name()]) == collected_layout(
            types,
            scalars,
            entries,
            seq![ty.strict().inner_name()],
        ),
{
}

/// Of the schemas of types it is seen rightly, without following references, whether they
/// accept null.
pub proof fn law_types_are_seen_rightly(
    names: Set<Seq<char>>,
    ty: TypeView,
    description: Option<Seq<char>>,
)
    ensures
        allows_null(type_json(names, ty, description)) == accepts_null(
            type_json(names, ty, description),
            no_references(),
        ),
{
    lemma_keywords();
    lemma_null_schema(no_references());
    let inner = type_json(names, ty.strict(), description);
    let whole = type_json(names, ty, description);
    assert(allows_null(inner) == accepts_null(inner, no_references()));
    if !ty.non_null() && !accepts_null(inner, no_references()) {
        let m = whole->Object_0;
        assert(m["oneOf"@] == Json::Array(seq![inner, null_schema()]));
        assert(m["oneOf"@]->Array_0[0] == inner);
        assert(m["oneOf"@]->Array_0[1] == null_schema());
        assert(allows_null(m["oneOf"@]->Array_0[1]));
        assert(alternatives_key(m) == "oneOf"@);
        lemma_nullable(inner, no_references());
    }
}

} // verus!
