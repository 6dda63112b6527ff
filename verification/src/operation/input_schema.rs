//! The JSON Schema of the variables of an operation.

use crate::document::{variable_views, OperationDef, VariableView};
use crate::graphql::{GraphqlSchema, TypeView};
use crate::json::{self, no_entries, put, Json, Object, Ordered, Parts, PartsRef};
use crate::operation::comments::text_map;
use crate::operation::execute::no_conflict;
use crate::schema_walker::acceptance::{
    admits_null, law_nullability_is_authoritative, law_references_resolve, resolves,
};
use crate::schema_walker::definitions::{
    defined, definition, referred, requiring, type_json, Scalars,
};
use crate::schema_walker::layout::{
    collected_layout, lemma_layout_none, lemma_layout_step, requiring_layout, type_layout,
    Entries,
};
use crate::schema_walker::nullable::accepts_null;
use crate::schema_walker::reachable::{
    collected, lemma_collected_none, lemma_collected_step, lemma_referred_same, Types,
};
use crate::schema_walker::references::{
    complete, dangling_free, law_references_stay_resolved, plain_scalars,
};
use crate::schema_walker::shape::lemma_put_new;
use crate::schema_walker::walk::{scalars_of, type_to_schema, CustomScalarMap};
use crate::string_map::StringMap;
use crate::text::{join, joined, same_text, text_of, views};
use serde_json::Value;
use vstd::prelude::*;

verus! {

/// What is known of the variables besides their types: the descriptions that comments
/// give, and those that the schema gives.
pub struct Docs {
    pub comments: Map<Seq<char>, Seq<char>>,
    pub arguments: Map<Seq<char>, Seq<Seq<char>>>,
}

impl Docs {
    /// The description of a variable: that of its comment, else those of the schema.
    pub open spec fn description(self, name: Seq<char>) -> Option<Seq<char>> {
        if self.comments.contains_key(name) {
            Some(self.comments[name])
        } else if self.arguments.contains_key(name) && self.arguments[name].len() > 0 {
            Some(joined(self.arguments[name], "#"@))
        } else {
            None
        }
    }
}

/// The texts that the lists of a map hold.
pub open spec fn texts_map(map: Map<Seq<char>, Vec<String>>) -> Map<Seq<char>, Seq<Seq<char>>> {
    map.map_values(|list: Vec<String>| views(list@))
}

/// The members of an object that may be missing.
pub open spec fn members_of(object: Option<&Object>) -> Map<Seq<char>, Json> {
    match object {
        Some(object) => json::members(*object),
        None => json::no_members(),
    }
}

/// The variables that have no value yet.
pub open spec fn open_variables(
    variables: Seq<VariableView>,
    given: Map<Seq<char>, Json>,
) -> Seq<VariableView> {
    variables.filter(|variable: VariableView| !given.contains_key(variable.name))
}

/// The types that variables have, inside all list and non-null markers.
pub open spec fn variable_types(variables: Seq<VariableView>) -> Set<Seq<char>> {
    Set::new(
        |name: Seq<char>|
            exists|i: int|
                0 <= i < variables.len() && (#[trigger] variables[i]).ty.inner_name() == name,
    )
}

/// The "properties" of variables.
pub open spec fn variables_json(
    names: Set<Seq<char>>,
    docs: Docs,
    variables: Seq<VariableView>,
) -> Map<Seq<char>, Json>
    decreases variables.len(),
{
    if variables.len() == 0 {
        json::no_members()
    } else {
        let variable = variables.last();
        variables_json(names, docs, variables.drop_last()).insert(
            variable.name,
            type_json(names, variable.ty, docs.description(variable.name)),
        )
    }
}

/// The names of the variables that have to be given, in order.
pub open spec fn required_names(variables: Seq<VariableView>) -> Seq<Json> {
    variables.filter(|variable: VariableView| variable.ty.non_null()).map_values(
        |variable: VariableView| json::text(variable.name),
    )
}

/// The definitions that the schemas of variables refer to.
pub open spec fn variable_definitions(
    types: Types,
    scalars: Scalars,
    variables: Seq<VariableView>,
) -> Map<Seq<char>, Json> {
    collected(types, scalars, json::no_members(), variable_types(variables))
}

/// The JSON Schema of the variables: an object with a property for each.
pub open spec fn variables_schema(
    types: Types,
    scalars: Scalars,
    docs: Docs,
    variables: Seq<VariableView>,
) -> Map<Seq<char>, Json> {
    let definitions = variable_definitions(types, scalars, variables);
    let schema = requiring(
        json::no_members().insert("type"@, json::text("object"@)).insert(
            "properties"@,
            Json::Object(
                variables_json(referred(types, json::no_members()), docs, variables),
            ),
        ),
        required_names(variables),
    );
    if definitions == json::no_members() {
        schema
    } else {
        schema.insert("definitions"@, Json::Object(definitions))
    }
}

/// The "properties" of variables, in order.
pub open spec fn variables_layout(
    names: Set<Seq<char>>,
    docs: Docs,
    variables: Seq<VariableView>,
) -> Entries
    decreases variables.len(),
{
    if variables.len() == 0 {
        no_entries()
    } else {
        let variable = variables.last();
        put(
            variables_layout(names, docs, variables.drop_last()),
            variable.name,
            type_layout(names, variable.ty, docs.description(variable.name)),
        )
    }
}

/// The names of the variables that have to be given, in order.
pub open spec fn required_names_layout(variables: Seq<VariableView>) -> Seq<Ordered> {
    variables.filter(|variable: VariableView| variable.ty.non_null()).map_values(
        |variable: VariableView| Ordered::String(variable.name),
    )
}

/// The types that variables have, in order, inside all list and non-null markers.
pub open spec fn variable_type_names(variables: Seq<VariableView>) -> Seq<Seq<char>> {
    variables.map_values(|variable: VariableView| variable.ty.inner_name())
}

/// The definitions that the schemas of variables refer to, in order.
pub open spec fn variable_definitions_layout(
    types: Types,
    scalars: Scalars,
    variables: Seq<VariableView>,
) -> Entries {
    collected_layout(types, scalars, no_entries(), variable_type_names(variables))
}

/// The members of the JSON Schema of the variables, in order.
pub open spec fn variables_schema_layout(
    types: Types,
    scalars: Scalars,
    docs: Docs,
    variables: Seq<VariableView>,
) -> Entries {
    let definitions = variable_definitions_layout(types, scalars, variables);
    let schema = requiring_layout(
        put(
            put(no_entries(), "type"@, Ordered::String("object"@)),
            "properties"@,
            Ordered::Object(
                variables_layout(referred(types, json::no_members()), docs, variables),
            ),
        ),
        required_names_layout(variables),
    );
    if definitions == no_entries() {
        schema
    } else {
        put(schema, "definitions"@, Ordered::Object(definitions))
    }
}

proof fn lemma_variable_types_push(variables: Seq<VariableView>, variable: VariableView)
    ensures
        variable_types(variables.push(variable)) == variable_types(variables).union(
            set![variable.ty.inner_name()],
        ),
{
    let after = variables.push(variable);
    assert forall|name: Seq<char>|
        variable_types(variables).union(set![variable.ty.inner_name()]).contains(
            name,
        ) implies variable_types(after).contains(name) by {
        if variable_types(variables).contains(name) {
            let i = choose|i: int|
                0 <= i < variables.len() && (#[trigger] variables[i]).ty.inner_name() == name;
            assert(after[i] == variables[i]);
        } else {
            assert(after[variables.len() as int].ty.inner_name() == name);
        }
    }
    assert forall|name: Seq<char>| variable_types(after).contains(name) implies variable_types(
        variables,
    ).union(set![variable.ty.inner_name()]).contains(name) by {
        let i = choose|i: int|
            0 <= i < after.len() && (#[trigger] after[i]).ty.inner_name() == name;
        if i < variables.len() {
            assert(after[i] == variables[i]);
        }
    }
    assert(variable_types(after) =~= variable_types(variables).union(
        set![variable.ty.inner_name()],
    ));
}

/// The description of a variable: that of its comment, else those of the schema.
fn description_of(
    name: &str,
    arguments: &StringMap<Vec<String>>,
    comments: &StringMap<String>,
) -> (r: Option<String>)
    ensures
        text_of(r) == (Docs {
            comments: text_map(comments@),
            arguments: texts_map(arguments@),
        }).description(name@),
{
    if let Some(comment) = comments.get(name) {
        return Some(comment.clone());
    }
    match arguments.get(name) {
        Some(list) => {
            assert(views(list@).len() == list@.len());
            if list.len() > 0 {
                Some(join(list, "#"))
            } else {
                None
            }
        },
        None => None,
    }
}

/// The JSON Schema of the variables of an operation that have no value yet.
pub fn get_json_schema(
    operation: &OperationDef,
    schema_argument_descriptions: &StringMap<Vec<String>>,
    argument_descriptions_overrides: &StringMap<String>,
    graphql_schema: &GraphqlSchema,
    custom_scalar_map: Option<&CustomScalarMap>,
    variable_overrides: Option<&Object>,
) -> (schema: Object)
    ensures
        json::members(schema) == variables_schema(
            graphql_schema.types@,
            scalars_of(custom_scalar_map),
            (Docs {
                comments: text_map(argument_descriptions_overrides@),
                arguments: texts_map(schema_argument_descriptions@),
            }),
            open_variables(operation@.variables, members_of(variable_overrides)),
        ),
        json::ordered_members(schema) == variables_schema_layout(
            graphql_schema.types@,
            scalars_of(custom_scalar_map),
            (Docs {
                comments: text_map(argument_descriptions_overrides@),
                arguments: texts_map(schema_argument_descriptions@),
            }),
            open_variables(operation@.variables, members_of(variable_overrides)),
        ),
{
    let mut properties = json::new_object();
    let mut required: Vec<Value> = Vec::new();
    let mut definitions = json::new_object();
    let ghost types = graphql_schema.types@;
    let ghost scalars = scalars_of(custom_scalar_map);
    let ghost given = members_of(variable_overrides);
    let ghost all = operation@.variables;
    let ghost docs = Docs {
        comments: text_map(argument_descriptions_overrides@),
        arguments: texts_map(schema_argument_descriptions@),
    };
    let ghost names = referred(types, json::no_members());
    let n: usize = operation.variables.len();
    proof {
        reveal(Seq::filter);
        assert(all.take(0) =~= Seq::empty());
        assert(variable_types(Seq::empty()) =~= Set::empty());
        lemma_collected_none(types, scalars, json::no_members());
        assert(json::jsons(required@) =~= required_names(Seq::empty()));
        graphql_schema.types.lemma_finite();
        lemma_layout_none(types, scalars, no_entries());
        assert(variable_type_names(Seq::empty()) =~= Seq::empty());
        assert(json::ordereds(required@) =~= required_names_layout(Seq::empty()));
        assert(json::plain_members(no_entries()) =~= json::no_members());
    }
    for i in 0..n
        invariant
            n == operation.variables@.len(),
            all == variable_views(operation.variables@),
            types == graphql_schema.types@,
            scalars == scalars_of(custom_scalar_map),
            given == members_of(variable_overrides),
            docs.comments == text_map(argument_descriptions_overrides@),
            docs.arguments == texts_map(schema_argument_descriptions@),
            names == referred(types, json::no_members()),
            types.dom().finite(),
            json::plain_members(no_entries()) == json::no_members(),
            json::ordered_members(properties) == variables_layout(
                names,
                docs,
                open_variables(all.take(i as int), given),
            ),
            json::ordereds(required@) == required_names_layout(
                open_variables(all.take(i as int), given),
            ),
            json::ordered_members(definitions) == variable_definitions_layout(
                types,
                scalars,
                open_variables(all.take(i as int), given),
            ),
            json::members(properties) == variables_json(
                names,
                docs,
                open_variables(all.take(i as int), given),
            ),
            json::jsons(required@) == required_names(open_variables(all.take(i as int), given)),
            json::members(definitions) == variable_definitions(
                types,
                scalars,
                open_variables(all.take(i as int), given),
            ),
    {
        let variable = &operation.variables[i];
        let ghost before = open_variables(all.take(i as int), given);
        proof {
            assert(all.take(i + 1).drop_last() =~= all.take(i as int));
            assert(all.take(i + 1).last() == variable@);
            reveal(Seq::filter);
        }
        let skip: bool = match variable_overrides {
            Some(overrides) => json::get(overrides, variable.name.as_str()).is_some(),
            None => false,
        };
        if !skip {
            proof {
                let after = open_variables(all.take(i + 1), given);
                assert(after == before.push(variable@));
                assert(after.drop_last() =~= before);
                lemma_variable_types_push(before, variable@);
                lemma_referred_same(types, scalars, json::no_members(), variable_types(before));
                lemma_collected_step(
                    types,
                    scalars,
                    json::no_members(),
                    variable_types(before),
                    set![variable@.ty.inner_name()],
                );
                lemma_layout_step(
                    types,
                    scalars,
                    no_entries(),
                    variable_type_names(before),
                    seq![variable@.ty.inner_name()],
                );
                assert(variable_type_names(after) =~= variable_type_names(before) + seq![
                    variable@.ty.inner_name(),
                ]);
            }
            let description = description_of(
                variable.name.as_str(),
                schema_argument_descriptions,
                argument_descriptions_overrides,
            );
            let nested = type_to_schema(
                &variable.ty,
                graphql_schema,
                &mut definitions,
                custom_scalar_map,
                &description,
            );
            json::insert(&mut properties, variable.name.clone(), nested);
            let ghost required_before = required@;
            if variable.ty.is_non_null() {
                required.push(json::string(variable.name.clone()));
                assert(json::jsons(required@) =~= json::jsons(required_before).push(
                    json::text(variable.name@),
                ));
                assert(required_names(before.push(variable@)) =~= required_names(before).push(
                    json::text(variable.name@),
                ));
                assert(json::ordereds(required@) =~= json::ordereds(required_before).push(
                    Ordered::String(variable.name@),
                ));
                assert(required_names_layout(before.push(variable@)) =~= required_names_layout(
                    before,
                ).push(Ordered::String(variable.name@)));
            }
        }
    }
    assert(all.take(n as int) =~= all);
    let mut schema = json::new_object();
    json::insert(&mut schema, "type".to_owned(), json::string("object".to_owned()));
    json::insert(&mut schema, "properties".to_owned(), json::object(properties));
    assert(json::jsons(required@).len() == required@.len());
    if required.len() > 0 {
        json::insert(&mut schema, "required".to_owned(), json::array(required));
    }
    if !json::is_empty(&definitions) {
        json::insert(&mut schema, "definitions".to_owned(), json::object(definitions));
    }
    schema
}

/// Whether the value is the schema of an object.
pub open spec fn is_object_schema(schema: Json) -> bool {
    match schema {
        Json::Object(m) => m.contains_key("type"@) && m["type"@] == json::text("object"@),
        _ => false,
    }
}

/// Whether the value has properties.
pub open spec fn has_properties(schema: Json) -> bool {
    match schema {
        Json::Object(m) => m.contains_key("properties"@) && m["properties"@] is Object,
        _ => false,
    }
}

/// The schema with properties, where it is the schema of an object.
pub open spec fn with_properties(schema: Json) -> Json {
    if is_object_schema(schema) && !has_properties(schema) {
        Json::Object(
            schema->Object_0.insert("properties"@, Json::Object(json::no_members())),
        )
    } else {
        schema
    }
}

/// The schema with properties, where it is the schema of an object, with its members in
/// order.
pub open spec fn with_properties_layout(schema: Ordered) -> Ordered {
    if is_object_schema(json::plain(schema)) && !has_properties(json::plain(schema)) {
        Ordered::Object(put(schema->Object_0, "properties"@, Ordered::Object(no_entries())))
    } else {
        schema
    }
}

/// Gives the schema of an object properties, where it has none.
pub fn ensure_properties_exists(schema: &mut Value)
    ensures
        json::json(*final(schema)) == with_properties(json::json(*old(schema))),
        json::ordered(*final(schema)) == with_properties_layout(json::ordered(*old(schema))),
{
    proof {
        json::lemma_json(*schema);
    }
    let mut taken = json::null();
    core::mem::swap(schema, &mut taken);
    match json::into_parts(taken) {
        Parts::Object(object) => {
            let mut members = object;
            let is_object: bool = match json::get(&members, "type") {
                Some(ty) => match json::parts_of(ty) {
                    PartsRef::String(s) => same_text(s, "object"),
                    _ => false,
                },
                None => false,
            };
            let has_properties: bool = match json::get(&members, "properties") {
                Some(properties) => match json::parts_of(properties) {
                    PartsRef::Object(_) => true,
                    _ => false,
                },
                None => false,
            };
            if is_object && !has_properties {
                json::insert(
                    &mut members,
                    "properties".to_owned(),
                    json::object(json::new_object()),
                );
            }
            *schema = json::object(members);
        },
        parts => {
            *schema = json::from_parts(parts);
        },
    }
}

/// The schema of an object has properties once they have been ensured, and ensuring them
/// again changes nothing.
pub proof fn law_properties_exist(schema: Json)
    ensures
        is_object_schema(schema) ==> has_properties(with_properties(schema)),
        with_properties(with_properties(schema)) == with_properties(schema),
        has_properties(schema) ==> with_properties(schema) == schema,
{
}

/// The properties of a schema.
pub open spec fn properties_in(schema: Map<Seq<char>, Json>) -> Map<Seq<char>, Json> {
    if schema.contains_key("properties"@) {
        schema["properties"@]->Object_0
    } else {
        json::no_members()
    }
}

/// The names that a schema requires.
pub open spec fn required_in(schema: Map<Seq<char>, Json>) -> Seq<Json> {
    if schema.contains_key("required"@) {
        schema["required"@]->Array_0
    } else {
        Seq::empty()
    }
}

/// The definitions of a schema.
pub open spec fn definitions_in(schema: Map<Seq<char>, Json>) -> Map<Seq<char>, Json> {
    if schema.contains_key("definitions"@) {
        schema["definitions"@]->Object_0
    } else {
        json::no_members()
    }
}

proof fn lemma_parts(
    types: Types,
    scalars: Scalars,
    docs: Docs,
    variables: Seq<VariableView>,
)
    ensures
        ({
            let schema = variables_schema(types, scalars, docs, variables);
            &&& properties_in(schema) == variables_json(
                referred(types, json::no_members()),
                docs,
                variables,
            )
            &&& required_in(schema) == required_names(variables)
            &&& definitions_in(schema) == variable_definitions(types, scalars, variables)
        }),
{
    reveal_strlit("type");
    reveal_strlit("properties");
    reveal_strlit("required");
    reveal_strlit("definitions");
    assert("type"@.len() == 4 && "properties"@.len() == 10);
    assert("required"@.len() == 8 && "definitions"@.len() == 11);
    assert(required_names(variables).len() == 0 ==> required_names(variables) =~= Seq::empty());
}

proof fn lemma_properties(names: Set<Seq<char>>, docs: Docs, variables: Seq<VariableView>)
    ensures
        forall|name: Seq<char>| #[trigger]
            variables_json(names, docs, variables).contains_key(name) <==> exists|i: int|
                0 <= i < variables.len() && (#[trigger] variables[i]).name == name,
    decreases variables.len(),
{
    if variables.len() > 0 {
        let front = variables.drop_last();
        lemma_properties(names, docs, front);
        assert forall|name: Seq<char>| #[trigger]
            variables_json(names, docs, variables).contains_key(name) <==> exists|i: int|
                0 <= i < variables.len() && (#[trigger] variables[i]).name == name by {
            if variables_json(names, docs, variables).contains_key(name) {
                if name == variables.last().name {
                    assert(variables[variables.len() - 1].name == name);
                } else {
                    assert(variables_json(names, docs, front).contains_key(name));
                    let i = choose|i: int|
                        0 <= i < front.len() && (#[trigger] front[i]).name == name;
                    assert(variables[i].name == name);
                }
            }
            if exists|i: int| 0 <= i < variables.len() && (#[trigger] variables[i]).name == name {
                let i = choose|i: int|
                    0 <= i < variables.len() && (#[trigger] variables[i]).name == name;
                if i < front.len() {
                    assert(front[i].name == name);
                    assert(variables_json(names, docs, front).contains_key(name));
                }
            }
        }
    }
}

proof fn lemma_property(
    names: Set<Seq<char>>,
    docs: Docs,
    variables: Seq<VariableView>,
    i: int,
)
    requires
        0 <= i < variables.len(),
        forall|j: int| i < j < variables.len() ==> (#[trigger] variables[j]).name
            != variables[i].name,
    ensures
        variables_json(names, docs, variables)[variables[i].name] == type_json(
            names,
            variables[i].ty,
            docs.description(variables[i].name),
        ),
    decreases variables.len(),
{
    if i < variables.len() - 1 {
        assert(variables.drop_last()[i] == variables[i]);
        assert(variables.last() == variables[variables.len() - 1]);
        lemma_property(names, docs, variables.drop_last(), i);
    }
}

/// The properties are exactly the variables.
pub proof fn law_properties_are_the_variables(
    types: Types,
    scalars: Scalars,
    docs: Docs,
    variables: Seq<VariableView>,
    name: Seq<char>,
)
    ensures
        properties_in(variables_schema(types, scalars, docs, variables)).contains_key(name)
            <==> exists|i: int|
            0 <= i < variables.len() && (#[trigger] variables[i]).name == name,
{
    lemma_parts(types, scalars, docs, variables);
    lemma_properties(referred(types, json::no_members()), docs, variables);
}

/// A name is required if and only if a variable of that name is non-null.
pub proof fn law_required_are_the_non_null_variables(
    types: Types,
    scalars: Scalars,
    docs: Docs,
    variables: Seq<VariableView>,
    name: Seq<char>,
)
    ensures
        required_in(variables_schema(types, scalars, docs, variables)).contains(json::text(name))
            <==> exists|i: int|
            0 <= i < variables.len() && (#[trigger] variables[i]).name == name
                && variables[i].ty.non_null(),
{
    lemma_parts(types, scalars, docs, variables);
    lemma_required(variables, name);
}

proof fn lemma_required(variables: Seq<VariableView>, name: Seq<char>)
    ensures
        required_names(variables).contains(json::text(name)) <==> exists|i: int|
            0 <= i < variables.len() && (#[trigger] variables[i]).name == name
                && variables[i].ty.non_null(),
    decreases variables.len(),
{
    reveal(Seq::filter);
    let names = required_names(variables);
    if variables.len() == 0 {
        assert(names =~= Seq::empty());
    } else {
        let front = variables.drop_last();
        let last = variables.last();
        lemma_required(front, name);
        if last.ty.non_null() {
            assert(names =~= required_names(front).push(json::text(last.name)));
            assert(names[names.len() - 1] == json::text(last.name));
        } else {
            assert(names =~= required_names(front));
        }
        if names.contains(json::text(name)) {
            let k = choose|k: int| 0 <= k < names.len() && names[k] == json::text(name);
            if k < required_names(front).len() {
                assert(required_names(front)[k] == names[k]);
                assert(required_names(front).contains(json::text(name)));
                let i = choose|i: int|
                    0 <= i < front.len() && (#[trigger] front[i]).name == name
                        && front[i].ty.non_null();
                assert(variables[i].name == name);
            } else {
                assert(variables[variables.len() - 1].name == name);
            }
        }
        if exists|i: int|
            0 <= i < variables.len() && (#[trigger] variables[i]).name == name
                && variables[i].ty.non_null() {
            let i = choose|i: int|
                0 <= i < variables.len() && (#[trigger] variables[i]).name == name
                    && variables[i].ty.non_null();
            if i < front.len() {
                assert(front[i].name == name);
                let k = choose|k: int|
                    0 <= k < required_names(front).len() && required_names(front)[k] == json::text(
                        name,
                    );
                assert(names[k] == json::text(name));
            }
        }
    }
}

/// GraphQL nullability is authoritative for the variables: null is valid against the
/// property of a variable if and only if the variable's type admits null, whatever the
/// operator's schemas for custom scalars say. `refs` says whether null is valid against the
/// definitions of the schema.
pub proof fn law_variable_nullability_is_authoritative(
    types: Types,
    scalars: Scalars,
    docs: Docs,
    variables: Seq<VariableView>,
    i: int,
    refs: spec_fn(Seq<char>) -> bool,
)
    requires
        0 <= i < variables.len(),
        forall|j: int| i < j < variables.len() ==> (#[trigger] variables[j]).name
            != variables[i].name,
        resolves(definitions_in(variables_schema(types, scalars, docs, variables)), refs),
    ensures
        accepts_null(
            properties_in(variables_schema(types, scalars, docs, variables))[variables[i].name],
            refs,
        ) <==> admits_null(types, variables[i].ty),
{
    lemma_parts(types, scalars, docs, variables);
    lemma_property(referred(types, json::no_members()), docs, variables, i);
    assert(variable_types(variables).contains(variables[i].ty.inner_name()));
    law_nullability_is_authoritative(
        types,
        scalars,
        variable_types(variables),
        variables[i].ty,
        docs.description(variables[i].name),
        refs,
    );
}

/// The schema of the variables holds the definition of each variable's type, where that
/// gets one.
pub proof fn law_variable_types_are_defined(
    types: Types,
    scalars: Scalars,
    docs: Docs,
    variables: Seq<VariableView>,
    i: int,
)
    requires
        0 <= i < variables.len(),
        defined(types, variables[i].ty.inner_name()),
    ensures
        ({
            let name = variables[i].ty.inner_name();
            let definitions = definitions_in(variables_schema(types, scalars, docs, variables));
            &&& definitions.contains_key(name)
            &&& definitions[name] == definition(
                types,
                scalars,
                referred(types, json::no_members()),
                name,
            )
        }),
{
    lemma_parts(types, scalars, docs, variables);
    assert(variable_types(variables).contains(variables[i].ty.inner_name()));
    law_references_resolve(
        types,
        scalars,
        variable_types(variables),
        variables[i].ty.inner_name(),
    );
}

/// Every reference in the schema of the variables, in a property or in a definition, has its
/// definition, where the operator's schemas hold no references.
pub proof fn law_variable_references_resolve(
    types: Types,
    scalars: Scalars,
    docs: Docs,
    variables: Seq<VariableView>,
    i: int,
)
    requires
        0 <= i < variables.len(),
        forall|j: int| i < j < variables.len() ==> (#[trigger] variables[j]).name
            != variables[i].name,
        plain_scalars(scalars),
    ensures
        ({
            let schema = variables_schema(types, scalars, docs, variables);
            &&& complete(definitions_in(schema))
            &&& dangling_free(
                properties_in(schema)[variables[i].name],
                definitions_in(schema),
            )
        }),
{
    lemma_parts(types, scalars, docs, variables);
    lemma_property(referred(types, json::no_members()), docs, variables, i);
    assert(variable_types(variables).contains(variables[i].ty.inner_name()));
    law_references_stay_resolved(
        types,
        scalars,
        json::no_members(),
        variable_types(variables),
        variables[i].ty,
        docs.description(variables[i].name),
    );
}

/// A variable that has a value already is not among the properties.
pub proof fn law_given_variables_are_not_offered(
    types: Types,
    scalars: Scalars,
    docs: Docs,
    variables: Seq<VariableView>,
    given: Map<Seq<char>, Json>,
    name: Seq<char>,
)
    requires
        given.contains_key(name),
    ensures
        !properties_in(
            variables_schema(types, scalars, docs, open_variables(variables, given)),
        ).contains_key(name),
{
    let open = open_variables(variables, given);
    let keep = |variable: VariableView| !given.contains_key(variable.name);
    law_properties_are_the_variables(types, scalars, docs, open, name);
    broadcast use vstd::seq_lib::group_filter_ensures;
    assert forall|i: int| 0 <= i < open.len() implies (#[trigger] open[i]).name != name by {
        assert(keep(variables.filter(keep)[i]));
    }
}

/// A caller that gives only variables that are offered gives none that has a value
/// already, so that the request is not refused for it.
pub proof fn law_offered_variables_do_not_conflict(
    types: Types,
    scalars: Scalars,
    docs: Docs,
    variables: Seq<VariableView>,
    own: Entries,
    caller: Entries,
)
    requires
        forall|i: int|
            0 <= i < caller.len() ==> properties_in(
                variables_schema(
                    types,
                    scalars,
                    docs,
                    open_variables(variables, json::plain_members(own)),
                ),
            ).contains_key((#[trigger] caller[i]).0),
    ensures
        no_conflict(caller, own),
{
    let given = json::plain_members(own);
    assert forall|i: int| 0 <= i < own.len() implies !json::has_member(
        caller,
        (#[trigger] own[i]).0,
    ) by {
        let name = own[i].0;
        json::lemma_has(own, name);
        assert(json::has_member(own, name));
        if json::has_member(caller, name) {
            let j = choose|j: int| 0 <= j < caller.len() && (#[trigger] caller[j]).0 == name;
            assert(caller[j].0 == name);
            law_given_variables_are_not_offered(types, scalars, docs, variables, given, name);
        }
    }
}

/// A variable is described by its comment, without one by all that the schema says of the
/// arguments that it is used for, and else not at all.
pub proof fn law_descriptions_of_variables(docs: Docs, name: Seq<char>)
    ensures
        docs.comments.contains_key(name) ==> docs.description(name) == Some(docs.comments[name]),
        !docs.comments.contains_key(name) && docs.arguments.contains_key(name)
            && docs.arguments[name].len() > 0 ==> docs.description(name) == Some(
            joined(docs.arguments[name], "#"@),
        ),
        !docs.comments.contains_key(name) && !(docs.arguments.contains_key(name)
            && docs.arguments[name].len() > 0) ==> docs.description(name) is None,
{
}

/// Exactly the variables without a value are left to the caller, in order.
pub proof fn law_open_variables(
    variables: Seq<VariableView>,
    variable: VariableView,
    given: Map<Seq<char>, Json>,
)
    ensures
        open_variables(Seq::empty(), given) == Seq::<VariableView>::empty(),
        open_variables(variables.push(variable), given) == if given.contains_key(variable.name) {
            open_variables(variables, given)
        } else {
            open_variables(variables, given).push(variable)
        },
{
    reveal(Seq::filter);
    assert(variables.push(variable).drop_last() =~= variables);
    assert(open_variables(Seq::empty(), given) =~= Seq::<VariableView>::empty());
}

/// The properties of variables, in order.
pub open spec fn property_list(types: Types, docs: Docs, variables: Seq<VariableView>) -> Entries {
    Seq::new(
        variables.len(),
        |i: int|
            (
                variables[i].name,
                type_layout(
                    referred(types, json::no_members()),
                    variables[i].ty,
                    docs.description(variables[i].name),
                ),
            ),
    )
}

/// The names of the variables whose type is non-null, a list or not, in order.
pub open spec fn non_null_names(variables: Seq<VariableView>) -> Seq<Ordered>
    decreases variables.len(),
{
    if variables.len() == 0 {
        Seq::empty()
    } else {
        non_null_names(variables.drop_last()) + match variables.last().ty {
            TypeView::Named(_) => Seq::empty(),
            TypeView::List(_) => Seq::empty(),
            TypeView::NonNullNamed(_) => seq![Ordered::String(variables.last().name)],
            TypeView::NonNullList(_) => seq![Ordered::String(variables.last().name)],
        }
    }
}

/// The names of the types of variables, in order, inside all markers.
pub open spec fn type_names(variables: Seq<VariableView>) -> Seq<Seq<char>> {
    Seq::new(variables.len(), |i: int| variables[i].ty.inner_name())
}

/// The JSON Schema of the variables is that of an object with a property for each, in order,
/// whose schema is that of its type. It requires the variables whose type is non-null, and holds
/// the definitions that the types lead to; it says nothing of either where there are none.
pub proof fn law_schema_of_the_variables(
    types: Types,
    scalars: Scalars,
    docs: Docs,
    variables: Seq<VariableView>,
)
    requires
        forall|i: int, j: int|
            0 <= i < j < variables.len() ==> (#[trigger] variables[i]).name != (
            #[trigger] variables[j]).name,
    ensures
        ({
            let required = non_null_names(variables);
            let definitions = collected_layout(
                types,
                scalars,
                Seq::empty(),
                type_names(variables),
            );
            variables_schema_layout(types, scalars, docs, variables) == seq![
                ("type"@, Ordered::String("object"@)),
                ("properties"@, Ordered::Object(property_list(types, docs, variables))),
            ] + (if required.len() == 0 {
                Seq::empty()
            } else {
                seq![("required"@, Ordered::Array(required))]
            }) + (if definitions.len() == 0 {
                Seq::empty()
            } else {
                seq![("definitions"@, Ordered::Object(definitions))]
            })
        }),
{
    reveal_strlit("type");
    reveal_strlit("properties");
    reveal_strlit("required");
    reveal_strlit("definitions");
    assert("type"@.len() == 4 && "properties"@.len() == 10);
    assert("required"@.len() == 8 && "definitions"@.len() == 11);
    let names = referred(types, json::no_members());
    lemma_property_list(types, docs, variables);
    lemma_non_null_names(variables);
    assert(variable_type_names(variables) =~= type_names(variables));
    let none: Entries = Seq::empty();
    let a = ("type"@, Ordered::String("object"@));
    let b = ("properties"@, Ordered::Object(property_list(types, docs, variables)));
    lemma_put_new(none, a.0, a.1);
    assert(none.push(a) =~= seq![a]);
    lemma_put_new(seq![a], b.0, b.1);
    assert(seq![a].push(b) =~= seq![a, b]);
    let required = non_null_names(variables);
    let c = ("required"@, Ordered::Array(required));
    let so_far = seq![a, b] + if required.len() == 0 {
        none
    } else {
        seq![c]
    };
    if required.len() > 0 {
        lemma_put_new(seq![a, b], c.0, c.1);
        assert(seq![a, b].push(c) =~= so_far);
    } else {
        assert(so_far =~= seq![a, b]);
    }
    let definitions = collected_layout(types, scalars, none, type_names(variables));
    let d = ("definitions"@, Ordered::Object(definitions));
    if definitions.len() > 0 {
        lemma_put_new(so_far, d.0, d.1);
        assert(so_far.push(d) =~= so_far + seq![d]);
    } else {
        assert(definitions =~= no_entries());
        assert(so_far + none =~= so_far);
    }
}

proof fn lemma_property_list(types: Types, docs: Docs, variables: Seq<VariableView>)
    requires
        forall|i: int, j: int|
            0 <= i < j < variables.len() ==> (#[trigger] variables[i]).name != (
            #[trigger] variables[j]).name,
    ensures
        variables_layout(referred(types, json::no_members()), docs, variables) == property_list(
            types,
            docs,
            variables,
        ),
    decreases variables.len(),
{
    let names = referred(types, json::no_members());
    if variables.len() > 0 {
        let front = variables.drop_last();
        let last = variables.last();
        lemma_property_list(types, docs, front);
        let before = property_list(types, docs, front);
        assert forall|i: int| 0 <= i < before.len() implies (#[trigger] before[i]).0
            != last.name by {
            assert(front[i].name == variables[i].name);
            assert(variables[variables.len() - 1].name == last.name);
        }
        let value = type_layout(names, last.ty, docs.description(last.name));
        lemma_put_new(before, last.name, value);
        assert(before.push((last.name, value)) =~= property_list(types, docs, variables));
    } else {
        assert(property_list(types, docs, variables) =~= no_entries());
    }
}

proof fn lemma_non_null_names(variables: Seq<VariableView>)
    ensures
        required_names_layout(variables) == non_null_names(variables),
    decreases variables.len(),
{
    reveal(Seq::filter);
    if variables.len() > 0 {
        lemma_non_null_names(variables.drop_last());
    }
    assert(required_names_layout(variables) =~= non_null_names(variables));
}

/// A schema is changed only where its "type" is "object" and it has no object of properties: then
/// it gets an empty one, in the place of what "properties" was, or at the end.
pub proof fn law_properties_are_ensured(
    m: Map<Seq<char>, Json>,
    other: Json,
    entries: Entries,
)
    ensures
        json::plain_members(entries) == m ==> with_properties_layout(Ordered::Object(entries))
            == if m.contains_key("type"@) && m["type"@] == Json::String("object"@) && !(
        m.contains_key("properties"@) && m["properties"@] is Object) {
            Ordered::Object(put(entries, "properties"@, Ordered::Object(Seq::empty())))
        } else {
            Ordered::Object(entries)
        },
        with_properties(Json::Object(m)) == if m.contains_key("type"@) && m["type"@]
            == Json::String("object"@) && !(m.contains_key("properties"@)
            && m["properties"@] is Object) {
            Json::Object(m.insert("properties"@, Json::Object(Map::empty())))
        } else {
            Json::Object(m)
        },
        !(other is Object) ==> with_properties(other) == other,
{
}

/// One variable more is one property more, at the end. Where a variable of that name is there
/// already, its property keeps its place and gets the schema of the new one.
pub proof fn law_one_variable_more(
    types: Types,
    docs: Docs,
    variables: Seq<VariableView>,
    variable: VariableView,
)
    ensures
        ({
            let names = referred(types, json::no_members());
            let before = variables_layout(names, docs, variables);
            let after = variables_layout(names, docs, variables.push(variable));
            let value = type_layout(names, variable.ty, docs.description(variable.name));
            let there = exists|i: int|
                0 <= i < before.len() && (#[trigger] before[i]).0 == variable.name;
            &&& !there ==> after == before.push((variable.name, value))
            &&& there ==> after.len() == before.len() && forall|i: int|
                0 <= i < before.len() ==> #[trigger] after[i] == if before[i].0 == variable.name {
                    (variable.name, value)
                } else {
                    before[i]
                }
        }),
{
    assert(variables.push(variable).drop_last() =~= variables);
}

} // verus!
