//! In which order the members of the JSON Schema of a GraphQL type stand.

use crate::graphql::{EnumType, EnumValue, ExtendedType, InputField, InputObjectType, TypeView};
use crate::json::{self, no_entries, ordered_singleton, put, written, Ordered};
use crate::schema_walker::definitions::{
    basic_type, defined, enum_value_line, own_description, referred, Scalars,
};
use crate::schema_walker::nullable::nullable_layout;
use crate::schema_walker::reachable::{missing, Types};
use crate::text::{joined, text_of, text_or_empty};
use vstd::prelude::*;

verus! {

/// The members of a JSON object in order.
pub type Entries = Seq<(Seq<char>, Ordered)>;

/// The members with a description, where there is one.
pub open spec fn described_layout(entries: Entries, description: Option<Seq<char>>) -> Entries {
    match description {
        Some(d) => put(entries, "description"@, Ordered::String(d)),
        None => entries,
    }
}

/// The members with a list of required names, where there is one.
pub open spec fn requiring_layout(entries: Entries, names: Seq<Ordered>) -> Entries {
    if names.len() == 0 {
        entries
    } else {
        put(entries, "required"@, Ordered::Array(names))
    }
}

/// The members of the schema of a named type without its nullability and
/// description.
pub open spec fn name_entries(referred: Set<Seq<char>>, name: Seq<char>) -> Entries {
    match basic_type(name) {
        Some(ty) => put(no_entries(), "type"@, Ordered::String(ty)),
        None => if referred.contains(name) {
            put(no_entries(), "$ref"@, Ordered::String("#/definitions/"@ + name))
        } else {
            no_entries()
        },
    }
}

/// The schema of a named type without its nullability.
pub open spec fn name_layout(
    referred: Set<Seq<char>>,
    name: Seq<char>,
    description: Option<Seq<char>>,
) -> Ordered {
    Ordered::Object(described_layout(name_entries(referred, name), description))
}

/// The schema of a list without its nullability.
pub open spec fn array_layout(items: Ordered) -> Ordered {
    Ordered::Object(
        put(
            put(no_entries(), "type"@, Ordered::String("array"@)),
            "items"@,
            written(items),
        ),
    )
}

/// The schema of a type. The description goes to the named type inside.
pub open spec fn type_layout(
    referred: Set<Seq<char>>,
    ty: TypeView,
    description: Option<Seq<char>>,
) -> Ordered
    decreases ty,
{
    match ty {
        TypeView::Named(name) => nullable_layout(name_layout(referred, name, description)),
        TypeView::NonNullNamed(name) => name_layout(referred, name, description),
        TypeView::List(item) => nullable_layout(
            array_layout(type_layout(referred, *item, description)),
        ),
        TypeView::NonNullList(item) => array_layout(type_layout(referred, *item, description)),
    }
}

/// The definition of an enum.
pub open spec fn enum_layout(ty: EnumType) -> Entries {
    put(
        put(
            put(no_entries(), "type"@, Ordered::String("string"@)),
            "enum"@,
            Ordered::Array(ty.values@.map_values(|value: EnumValue| Ordered::String(value.name@))),
        ),
        "description"@,
        Ordered::String(
            text_or_empty(ty.description) + "\n\nValues:\n"@ + joined(
                ty.values@.map_values(|value: EnumValue| enum_value_line(value)),
                "\n"@,
            ),
        ),
    )
}

/// The schema that accepts everything but null.
pub open spec fn not_null_layout() -> Entries {
    put(no_entries(), "not"@, ordered_singleton("type"@, Ordered::String("null"@)))
}

/// The definition of a custom scalar.
pub open spec fn scalar_layout(
    scalars: Scalars,
    name: Seq<char>,
    description: Option<Seq<char>>,
) -> Entries {
    match scalars {
        Some(map) if map.contains_key(name) => described_layout(
            put(
                no_entries(),
                "allOf"@,
                Ordered::Array(
                    seq![
                        written(json::ordered(map[name])),
                        Ordered::Object(not_null_layout()),
                    ],
                ),
            ),
            match own_description(json::json(map[name])) {
                Some(d) => Some(d),
                None => description,
            },
        ),
        _ => described_layout(not_null_layout(), description),
    }
}

/// The "properties" of an input object, of its fields.
pub open spec fn fields_layout(referred: Set<Seq<char>>, fields: Seq<InputField>) -> Entries
    decreases fields.len(),
{
    if fields.len() == 0 {
        no_entries()
    } else {
        let field = fields.last();
        put(
            fields_layout(referred, fields.drop_last()),
            field.name@,
            type_layout(referred, field.ty.view(), text_of(field.description)),
        )
    }
}

/// The names of the fields that have to be given, in order.
pub open spec fn required_layout(fields: Seq<InputField>) -> Seq<Ordered>
    decreases fields.len(),
{
    if fields.len() == 0 {
        Seq::empty()
    } else if fields.last().required() {
        required_layout(fields.drop_last()).push(Ordered::String(fields.last().name@))
    } else {
        required_layout(fields.drop_last())
    }
}

/// The definition of an input object.
pub open spec fn input_layout(referred: Set<Seq<char>>, ty: InputObjectType) -> Entries {
    requiring_layout(
        described_layout(
            put(
                put(no_entries(), "type"@, Ordered::String("object"@)),
                "properties"@,
                Ordered::Object(fields_layout(referred, ty.fields@)),
            ),
            text_of(ty.description),
        ),
        required_layout(ty.fields@),
    )
}

/// The definition of a name that gets one.
pub open spec fn definition_layout(
    types: Types,
    scalars: Scalars,
    referred: Set<Seq<char>>,
    name: Seq<char>,
) -> Ordered {
    Ordered::Object(
        match types[name] {
            ExtendedType::Enum(ty) => enum_layout(ty),
            ExtendedType::InputObject(ty) => input_layout(referred, ty),
            ExtendedType::Scalar(ty) => scalar_layout(scalars, name, text_of(ty.description)),
            _ => no_entries(),
        },
    )
}

/// The types of fields, in order, inside all list and non-null markers.
pub open spec fn field_names(fields: Seq<InputField>) -> Seq<Seq<char>> {
    fields.map_values(|field: InputField| field.ty.view().inner_name())
}

/// The names that the definition of a name mentions, in order.
pub open spec fn mentions(types: Types, name: Seq<char>) -> Seq<Seq<char>> {
    match types[name] {
        ExtendedType::InputObject(ty) => field_names(ty.fields@),
        _ => Seq::empty(),
    }
}

/// How many types of a schema are not among the names.
pub open spec fn unseen(types: Types, seen: Set<Seq<char>>) -> nat {
    types.dom().difference(seen).len()
}

/// One more name leaves fewer types unseen.
pub(crate) proof fn lemma_unseen(types: Types, seen: Set<Seq<char>>, name: Seq<char>)
    requires
        types.dom().finite(),
        types.contains_key(name),
        !seen.contains(name),
    ensures
        unseen(types, seen.insert(name)) < unseen(types, seen),
{
    let before = types.dom().difference(seen);
    assert(before.contains(name));
    assert(types.dom().difference(seen.insert(name)) =~= before.remove(name));
}

/// The names that get a definition when the pending ones are walked one after the other,
/// where those that are seen have one: a name comes before those that it mentions, and what
/// it mentions comes before the next pending one.
pub open spec fn found(types: Types, seen: Set<Seq<char>>, pending: Seq<Seq<char>>) -> Seq<
    Seq<char>,
>
    decreases unseen(types, seen), pending.len(),
    when types.dom().finite()
    via found_decreases
{
    if pending.len() == 0 {
        Seq::empty()
    } else if defined(types, pending[0]) && !seen.contains(pending[0]) {
        seq![pending[0]] + found(
            types,
            seen.insert(pending[0]),
            mentions(types, pending[0]) + pending.drop_first(),
        )
    } else {
        found(types, seen, pending.drop_first())
    }
}

#[via_fn]
proof fn found_decreases(types: Types, seen: Set<Seq<char>>, pending: Seq<Seq<char>>) {
    if pending.len() > 0 && defined(types, pending[0]) && !seen.contains(pending[0]) {
        lemma_unseen(types, seen, pending[0]);
    }
}

/// The names that have members.
pub open spec fn names_in(entries: Entries) -> Set<Seq<char>> {
    json::plain_members(entries).dom()
}

/// The definitions that are there once the pending names have been walked: those that were
/// there, and behind them one for each name that was found.
pub open spec fn collected_layout(
    types: Types,
    scalars: Scalars,
    entries: Entries,
    pending: Seq<Seq<char>>,
) -> Entries {
    let names = referred(types, json::plain_members(entries));
    entries + found(types, names_in(entries), pending).map_values(
        |name: Seq<char>| (name, definition_layout(types, scalars, names, name)),
    )
}

/// What is found gets a definition and had none.
proof fn lemma_found_new(
    types: Types,
    seen: Set<Seq<char>>,
    pending: Seq<Seq<char>>,
    name: Seq<char>,
)
    requires
        types.dom().finite(),
        found(types, seen, pending).contains(name),
    ensures
        defined(types, name),
        !seen.contains(name),
    decreases unseen(types, seen), pending.len(),
{
    let all = found(types, seen, pending);
    if pending.len() > 0 {
        let first = pending[0];
        let rest = pending.drop_first();
        if defined(types, first) && !seen.contains(first) {
            let more = found(types, seen.insert(first), mentions(types, first) + rest);
            if name != first {
                let i = choose|i: int| 0 <= i < all.len() && all[i] == name;
                assert(all == seq![first] + more);
                assert(more[i - 1] == name);
                lemma_unseen(types, seen, first);
                lemma_found_new(types, seen.insert(first), mentions(types, first) + rest, name);
            }
        } else {
            lemma_found_new(types, seen, rest, name);
        }
    }
}

/// Walking some names and then others is walking them all.
proof fn lemma_found_step(
    types: Types,
    seen: Set<Seq<char>>,
    a: Seq<Seq<char>>,
    b: Seq<Seq<char>>,
)
    requires
        types.dom().finite(),
    ensures
        found(types, seen, a + b) == found(types, seen, a) + found(
            types,
            seen.union(found(types, seen, a).to_set()),
            b,
        ),
    decreases unseen(types, seen), a.len(),
{
    let first_part = found(types, seen, a);
    if a.len() == 0 {
        assert(a + b =~= b);
        assert(seen.union(first_part.to_set()) =~= seen);
        assert(first_part + found(types, seen, b) =~= found(types, seen, b));
    } else {
        let first = a[0];
        let rest = a.drop_first();
        assert((a + b)[0] == first);
        assert((a + b).drop_first() =~= rest + b);
        if defined(types, first) && !seen.contains(first) {
            let next = mentions(types, first) + rest;
            let more = found(types, seen.insert(first), next);
            assert(mentions(types, first) + (rest + b) =~= next + b);
            lemma_unseen(types, seen, first);
            lemma_found_step(types, seen.insert(first), next, b);
            assert(first_part == seq![first] + more);
            assert forall|x: Seq<char>| seen.insert(first).union(more.to_set()).contains(
                x,
            ) == seen.union(first_part.to_set()).contains(x) by {
                if more.contains(x) {
                    let i = choose|i: int| 0 <= i < more.len() && more[i] == x;
                    assert(first_part[i + 1] == x);
                }
                if first_part.contains(x) && x != first {
                    let i = choose|i: int| 0 <= i < first_part.len() && first_part[i] == x;
                    assert(more[i - 1] == x);
                }
                assert(first_part[0] == first);
            }
            assert(seen.insert(first).union(more.to_set()) =~= seen.union(first_part.to_set()));
            let others = found(types, seen.union(first_part.to_set()), b);
            assert(seq![first] + (more + others) =~= (seq![first] + more) + others);
        } else {
            lemma_found_step(types, seen, rest, b);
        }
    }
}

/// The names that have definitions once the pending ones have been walked.
proof fn lemma_collected_names(
    types: Types,
    scalars: Scalars,
    entries: Entries,
    pending: Seq<Seq<char>>,
)
    requires
        types.dom().finite(),
    ensures
        ({
            let after = collected_layout(types, scalars, entries, pending);
            &&& names_in(after) == names_in(entries).union(
                found(types, names_in(entries), pending).to_set(),
            )
            &&& referred(types, json::plain_members(after)) == referred(
                types,
                json::plain_members(entries),
            )
        }),
{
    let after = collected_layout(types, scalars, entries, pending);
    let new = found(types, names_in(entries), pending);
    assert forall|name: Seq<char>| names_in(after).contains(name) == names_in(entries).union(
        new.to_set(),
    ).contains(name) by {
        json::lemma_has(after, name);
        json::lemma_has(entries, name);
        if json::has_member(after, name) {
            let i = choose|i: int| 0 <= i < after.len() && (#[trigger] after[i]).0 == name;
            if i < entries.len() {
                assert(entries[i].0 == name);
            } else {
                assert(new[i - entries.len()] == name);
            }
        }
        if json::has_member(entries, name) {
            let i = choose|i: int| 0 <= i < entries.len() && (#[trigger] entries[i]).0 == name;
            assert(after[i].0 == name);
        }
        if new.contains(name) {
            let i = choose|i: int| 0 <= i < new.len() && new[i] == name;
            assert(after[entries.len() + i].0 == name);
        }
    }
    assert(names_in(after) =~= names_in(entries).union(new.to_set()));
    assert forall|name: Seq<char>| referred(types, json::plain_members(after)).contains(name)
        == referred(types, json::plain_members(entries)).contains(name) by {
        assert(json::plain_members(after).contains_key(name) == names_in(after).contains(name));
        assert(json::plain_members(entries).contains_key(name) == names_in(entries).contains(name));
        if new.contains(name) {
            lemma_found_new(types, names_in(entries), pending, name);
        }
    }
    assert(referred(types, json::plain_members(after)) =~= referred(
        types,
        json::plain_members(entries),
    ));
}

/// Walking some names and then others is walking them all.
pub(crate) proof fn lemma_layout_step(
    types: Types,
    scalars: Scalars,
    entries: Entries,
    a: Seq<Seq<char>>,
    b: Seq<Seq<char>>,
)
    requires
        types.dom().finite(),
    ensures
        collected_layout(types, scalars, collected_layout(types, scalars, entries, a), b)
            == collected_layout(types, scalars, entries, a + b),
{
    lemma_collected_names(types, scalars, entries, a);
    lemma_found_step(types, names_in(entries), a, b);
    assert(collected_layout(types, scalars, collected_layout(types, scalars, entries, a), b)
        =~= collected_layout(types, scalars, entries, a + b));
}

/// Walking nothing leaves the definitions as they are.
pub(crate) proof fn lemma_layout_none(types: Types, scalars: Scalars, entries: Entries)
    requires
        types.dom().finite(),
    ensures
        collected_layout(types, scalars, entries, Seq::empty()) == entries,
{
    assert(collected_layout(types, scalars, entries, Seq::empty()) =~= entries);
}

/// Walking a name whose definition is there, or that gets none, changes nothing.
pub(crate) proof fn lemma_layout_known(
    types: Types,
    scalars: Scalars,
    entries: Entries,
    name: Seq<char>,
)
    requires
        types.dom().finite(),
        !missing(types, json::plain_members(entries), name),
    ensures
        collected_layout(types, scalars, entries, seq![name]) == entries,
{
    assert(seq![name].drop_first() =~= Seq::empty());
    assert(json::plain_members(entries).contains_key(name) == names_in(entries).contains(name));
    assert(found(types, names_in(entries), Seq::empty()) =~= Seq::empty());
    assert(found(types, names_in(entries), seq![name]) =~= Seq::empty());
    assert(collected_layout(types, scalars, entries, seq![name]) =~= entries);
}

/// Walking a name that has no definition yet: its mentions are walked while
/// something holds its place, and its definition is put there at the end.
pub(crate) proof fn lemma_layout_name(
    types: Types,
    scalars: Scalars,
    entries: Entries,
    placeholder: Ordered,
    name: Seq<char>,
)
    requires
        types.dom().finite(),
        missing(types, json::plain_members(entries), name),
    ensures
        put(entries, name, placeholder) == entries.push((name, placeholder)),
        put(
            collected_layout(
                types,
                scalars,
                entries.push((name, placeholder)),
                mentions(types, name),
            ),
            name,
            definition_layout(
                types,
                scalars,
                referred(types, json::plain_members(entries)),
                name,
            ),
        ) == collected_layout(types, scalars, entries, seq![name]),
{
    let held = entries.push((name, placeholder));
    let seen = names_in(entries);
    let cached = json::plain_members(entries);
    let names = referred(types, cached);
    json::lemma_has(entries, name);
    assert(held.drop_last() =~= entries);
    assert(names_in(held) =~= seen.insert(name));
    assert(referred(types, json::plain_members(held)) =~= names);
    assert(seq![name].drop_first() =~= Seq::empty());
    assert(mentions(types, name) + Seq::empty() =~= mentions(types, name));
    let more = found(types, seen.insert(name), mentions(types, name));
    assert(found(types, seen, seq![name]) == seq![name] + more);
    let between = collected_layout(types, scalars, held, mentions(types, name));
    let def = definition_layout(types, scalars, names, name);
    assert(between[entries.len() as int].0 == name);
    assert(json::has_member(between, name));
    let left = put(between, name, def);
    let right = collected_layout(types, scalars, entries, seq![name]);
    assert forall|i: int| 0 <= i < left.len() implies left[i] == right[i] by {
        if i < entries.len() {
            assert(between[i] == entries[i]);
            assert(entries[i].0 != name);
        } else if i > entries.len() {
            let found_name = more[i - entries.len() - 1];
            assert(more.contains(found_name));
            lemma_found_new(types, seen.insert(name), mentions(types, name), found_name);
            assert(between[i].0 == found_name);
        }
    }
    assert(left =~= right);
}

} // verus!
