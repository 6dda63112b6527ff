//! JSON values of `serde_json`, and what they hold.
//!
//! A value is modelled twice. [`Ordered`] is the value with the members of each object in the
//! order in which `serde_json` keeps them. [`Json`] is what the value says: there an object
//! is a map from member names to values, and the order is forgotten, as it is in the equality
//! of two objects.

use crate::text::byte_len;
use serde_json::Value;
use vstd::prelude::*;

verus! {

/// A JSON value of `serde_json`. It is opaque here; [`ordered`] names what it holds.
#[verifier::external_type_specification]
#[verifier::external_body]
pub struct ExValue(serde_json::Value);

/// A JSON number of `serde_json`. It is carried and never read.
#[verifier::external_type_specification]
#[verifier::external_body]
pub struct ExNumber(serde_json::Number);

/// The members of a JSON object, as `serde_json` keeps them.
#[verifier::external_type_specification]
#[verifier::external_body]
#[verifier::reject_recursive_types(K)]
#[verifier::reject_recursive_types(V)]
pub struct ExMap<K, V>(serde_json::Map<K, V>);

/// An error of `serde_json`.
#[verifier::external_type_specification]
#[verifier::external_body]
pub struct ExError(serde_json::Error);

/// The members of a JSON object.
pub type Object = serde_json::Map<String, Value>;

/// What a JSON value says.
pub enum Json {
    Null,
    Bool(bool),
    Number(serde_json::Number),
    String(Seq<char>),
    Array(Seq<Json>),
    Object(Map<Seq<char>, Json>),
}

/// A JSON value with the members of its objects in order.
pub enum Ordered {
    Null,
    Bool(bool),
    Number(serde_json::Number),
    String(Seq<char>),
    Array(Seq<Ordered>),
    Object(Seq<(Seq<char>, Ordered)>),
}

/// The JSON value that a `serde_json::Value` holds, with its members in order.
pub uninterp spec fn ordered(value: serde_json::Value) -> Ordered;

/// The members that a `serde_json::Map` holds, in order.
pub uninterp spec fn ordered_members(
    object: serde_json::Map<String, serde_json::Value>,
) -> Seq<(Seq<char>, Ordered)>;

/// How `schemars` arranges the members of a schema, and of the schemas inside it, when it
/// writes the schema: some keywords first, some last, the others in the order that they had.
pub uninterp spec fn arranged(schema: Ordered) -> Ordered;

/// The number of bytes of the text that `serde_json` pretty-prints for a value.
/// It does not depend on the order of an object's members: each member adds its
/// own lines and one separator between neighbours.
pub uninterp spec fn pretty_len(value: Json) -> nat;

/// What a value says, whatever the order of its members.
pub open spec fn plain(value: Ordered) -> Json
    decreases value,
{
    match value {
        Ordered::Null => Json::Null,
        Ordered::Bool(b) => Json::Bool(b),
        Ordered::Number(n) => Json::Number(n),
        Ordered::String(s) => Json::String(s),
        Ordered::Array(items) => Json::Array(plain_items(items)),
        Ordered::Object(entries) => Json::Object(plain_members(entries)),
    }
}

/// What the items of an array say.
pub open spec fn plain_items(items: Seq<Ordered>) -> Seq<Json>
    decreases items,
{
    if items.len() == 0 {
        Seq::empty()
    } else {
        plain_items(items.drop_last()).push(plain(items.last()))
    }
}

/// What the members of an object say.
pub open spec fn plain_members(entries: Seq<(Seq<char>, Ordered)>) -> Map<Seq<char>, Json>
    decreases entries,
{
    if entries.len() == 0 {
        Map::empty()
    } else {
        plain_members(entries.drop_last()).insert(entries.last().0, plain(entries.last().1))
    }
}

/// What the JSON value that a `serde_json::Value` holds says.
#[verifier::opaque]
pub open spec fn json(value: serde_json::Value) -> Json {
    plain(ordered(value))
}

/// What the members that a `serde_json::Map` holds say.
#[verifier::opaque]
pub open spec fn members(object: serde_json::Map<String, serde_json::Value>) -> Map<
    Seq<char>,
    Json,
> {
    plain_members(ordered_members(object))
}

/// What a sequence of `serde_json` values says.
pub open spec fn jsons(values: Seq<Value>) -> Seq<Json> {
    values.map_values(|value: Value| json(value))
}

/// The JSON values that a sequence of `serde_json` values holds, with their members in order.
pub open spec fn ordereds(values: Seq<Value>) -> Seq<Ordered> {
    values.map_values(|value: Value| ordered(value))
}

/// The object without members.
pub open spec fn no_members() -> Map<Seq<char>, Json> {
    Map::empty()
}

/// The members of an object that has none.
pub open spec fn no_entries() -> Seq<(Seq<char>, Ordered)> {
    Seq::empty()
}

/// Whether there is a member of that name.
pub open spec fn has_member(entries: Seq<(Seq<char>, Ordered)>, key: Seq<char>) -> bool {
    exists|i: int| 0 <= i < entries.len() && (#[trigger] entries[i]).0 == key
}

/// The members once the one of that name has been given the value: in its place where there
/// is one, else at the end.
pub open spec fn put(
    entries: Seq<(Seq<char>, Ordered)>,
    key: Seq<char>,
    value: Ordered,
) -> Seq<(Seq<char>, Ordered)> {
    if has_member(entries, key) {
        replaced(entries, key, value)
    } else {
        entries.push((key, value))
    }
}

/// The members with the value in place of the one that the name had.
pub open spec fn replaced(
    entries: Seq<(Seq<char>, Ordered)>,
    key: Seq<char>,
    value: Ordered,
) -> Seq<(Seq<char>, Ordered)> {
    Seq::new(
        entries.len(),
        |i: int|
            if entries[i].0 == key {
                (key, value)
            } else {
                entries[i]
            },
    )
}

/// The members of an object that may be missing, in order.
pub open spec fn object_entries(object: Option<Object>) -> Option<Seq<(Seq<char>, Ordered)>> {
    match object {
        Some(object) => Some(ordered_members(object)),
        None => None,
    }
}

/// The JSON string with the given text.
pub open spec fn text(s: Seq<char>) -> Json {
    Json::String(s)
}

/// The object with one member.
pub open spec fn singleton(key: Seq<char>, value: Json) -> Json {
    Json::Object(no_members().insert(key, value))
}

/// The object with one member.
pub open spec fn ordered_singleton(key: Seq<char>, value: Ordered) -> Ordered {
    Ordered::Object(put(no_entries(), key, value))
}

/// A schema as `schemars` writes it. What is no object is written as it is.
pub open spec fn written(schema: Ordered) -> Ordered {
    match schema {
        Ordered::Object(_) => arranged(schema),
        _ => schema,
    }
}

/// What a `serde_json` value says, by what it holds.
pub proof fn lemma_json(value: Value)
    ensures
        json(value) == plain(ordered(value)),
{
    reveal(json);
}

/// What a `serde_json` object says, by what it holds.
pub proof fn lemma_members(object: Object)
    ensures
        members(object) == plain_members(ordered_members(object)),
        plain(Ordered::Object(ordered_members(object))) == Json::Object(members(object)),
{
    reveal(members);
}

proof fn lemma_jsons(values: Seq<Value>)
    ensures
        plain_items(ordereds(values)) == jsons(values),
    decreases values.len(),
{
    if values.len() > 0 {
        let front = values.drop_last();
        lemma_jsons(front);
        lemma_json(values.last());
        assert(ordereds(values).drop_last() =~= ordereds(front));
        assert(jsons(values) =~= jsons(front).push(json(values.last())));
    } else {
        assert(jsons(values) =~= Seq::empty());
    }
}

/// A name has a member if and only if what the members say has one.
pub(crate) proof fn lemma_has(entries: Seq<(Seq<char>, Ordered)>, key: Seq<char>)
    ensures
        plain_members(entries).contains_key(key) == has_member(entries, key),
    decreases entries.len(),
{
    if entries.len() > 0 {
        let front = entries.drop_last();
        lemma_has(front, key);
        assert(entries[entries.len() - 1] == entries.last());
        if has_member(front, key) {
            let i = choose|i: int| 0 <= i < front.len() && (#[trigger] front[i]).0 == key;
            assert(entries[i].0 == key);
        }
        if has_member(entries, key) && entries.last().0 != key {
            let i = choose|i: int| 0 <= i < entries.len() && (#[trigger] entries[i]).0 == key;
            assert(front[i].0 == key);
        }
    }
}

/// What some members say with others behind them.
pub(crate) proof fn lemma_plain_add(
    first: Seq<(Seq<char>, Ordered)>,
    second: Seq<(Seq<char>, Ordered)>,
)
    ensures
        plain_members(first + second) == plain_members(first).union_prefer_right(
            plain_members(second),
        ),
    decreases second.len(),
{
    let both = first + second;
    if second.len() == 0 {
        assert(both =~= first);
    } else {
        lemma_plain_add(first, second.drop_last());
        assert(both.drop_last() =~= first + second.drop_last());
        assert(both.last() == second.last());
    }
    assert(plain_members(both) =~= plain_members(first).union_prefer_right(
        plain_members(second),
    ));
}

/// The one member of a name gives what the members say of the name.
proof fn lemma_found(entries: Seq<(Seq<char>, Ordered)>, i: int)
    requires
        0 <= i < entries.len(),
        forall|j: int|
            0 <= j < entries.len() && j != i ==> (#[trigger] entries[j]).0 != entries[i].0,
    ensures
        plain_members(entries).contains_key(entries[i].0),
        plain_members(entries)[entries[i].0] == plain(entries[i].1),
    decreases entries.len(),
{
    let front = entries.drop_last();
    if i < front.len() {
        assert(front[i] == entries[i]);
        assert(entries[entries.len() - 1].0 != entries[i].0);
        lemma_found(front, i);
    }
}

proof fn lemma_replaced(entries: Seq<(Seq<char>, Ordered)>, key: Seq<char>, value: Ordered)
    ensures
        plain_members(replaced(entries, key, value)) == if has_member(entries, key) {
            plain_members(entries).insert(key, plain(value))
        } else {
            plain_members(entries)
        },
    decreases entries.len(),
{
    let after = replaced(entries, key, value);
    if entries.len() > 0 {
        let front = entries.drop_last();
        let last = entries.last();
        lemma_replaced(front, key, value);
        assert(after.drop_last() =~= replaced(front, key, value));
        lemma_has(front, key);
        lemma_has(entries, key);
        if last.0 == key {
            assert(plain_members(after) =~= plain_members(entries).insert(key, plain(value)));
        } else if has_member(front, key) {
            assert(plain_members(after) =~= plain_members(entries).insert(key, plain(value)));
        } else {
            assert(plain_members(after) =~= plain_members(entries));
        }
    }
}

/// What the members say once one has been put.
proof fn lemma_put(entries: Seq<(Seq<char>, Ordered)>, key: Seq<char>, value: Ordered)
    ensures
        plain_members(put(entries, key, value)) == plain_members(entries).insert(
            key,
            plain(value),
        ),
{
    lemma_replaced(entries, key, value);
    if !has_member(entries, key) {
        assert(entries.push((key, value)).drop_last() =~= entries);
    }
}

/// A JSON value taken apart.
pub enum Parts {
    Null,
    Bool(bool),
    Number(serde_json::Number),
    String(String),
    Array(Vec<Value>),
    Object(Object),
}

impl Parts {
    /// What the value that these are the parts of says.
    pub open spec fn json(self) -> Json {
        match self {
            Parts::Null => Json::Null,
            Parts::Bool(b) => Json::Bool(b),
            Parts::Number(n) => Json::Number(n),
            Parts::String(s) => Json::String(s@),
            Parts::Array(items) => Json::Array(jsons(items@)),
            Parts::Object(object) => Json::Object(members(object)),
        }
    }

    /// The value that these are the parts of.
    pub open spec fn ordered(self) -> Ordered {
        match self {
            Parts::Null => Ordered::Null,
            Parts::Bool(b) => Ordered::Bool(b),
            Parts::Number(n) => Ordered::Number(n),
            Parts::String(s) => Ordered::String(s@),
            Parts::Array(items) => Ordered::Array(ordereds(items@)),
            Parts::Object(object) => Ordered::Object(ordered_members(object)),
        }
    }

    proof fn lemma_plain(self)
        ensures
            plain(self.ordered()) == self.json(),
    {
        match self {
            Parts::Array(items) => {
                lemma_jsons(items@);
            },
            Parts::Object(object) => {
                lemma_members(object);
            },
            _ => {},
        }
    }
}

/// A borrowed JSON value taken apart.
pub enum PartsRef<'a> {
    Null,
    Bool(bool),
    Number(&'a serde_json::Number),
    String(&'a str),
    Array(&'a Vec<Value>),
    Object(&'a Object),
}

impl<'a> PartsRef<'a> {
    /// What the value that these are the parts of says.
    pub open spec fn json(self) -> Json {
        match self {
            PartsRef::Null => Json::Null,
            PartsRef::Bool(b) => Json::Bool(b),
            PartsRef::Number(n) => Json::Number(*n),
            PartsRef::String(s) => Json::String(s@),
            PartsRef::Array(items) => Json::Array(jsons(items@)),
            PartsRef::Object(object) => Json::Object(members(*object)),
        }
    }

    /// The value that these are the parts of.
    pub open spec fn ordered(self) -> Ordered {
        match self {
            PartsRef::Null => Ordered::Null,
            PartsRef::Bool(b) => Ordered::Bool(b),
            PartsRef::Number(n) => Ordered::Number(*n),
            PartsRef::String(s) => Ordered::String(s@),
            PartsRef::Array(items) => Ordered::Array(ordereds(items@)),
            PartsRef::Object(object) => Ordered::Object(ordered_members(*object)),
        }
    }

    proof fn lemma_plain(self)
        ensures
            plain(self.ordered()) == self.json(),
    {
        match self {
            PartsRef::Array(items) => {
                lemma_jsons(items@);
            },
            PartsRef::Object(object) => {
                lemma_members(*object);
            },
            _ => {},
        }
    }
}

/// Tells the variants of `serde_json::Value` apart and moves out what they hold.
/// Trusted: nothing of the value is lost or changed.
#[verifier::external_body]
fn take_apart(value: Value) -> (parts: Parts)
    ensures
        ordered(value) == parts.ordered(),
{
    match value {
        Value::Null => Parts::Null,
        Value::Bool(b) => Parts::Bool(b),
        Value::Number(n) => Parts::Number(n),
        Value::String(s) => Parts::String(s),
        Value::Array(items) => Parts::Array(items),
        Value::Object(object) => Parts::Object(object),
    }
}

/// The parts of a JSON value.
pub(crate) fn into_parts(value: Value) -> (parts: Parts)
    ensures
        json(value) == parts.json(),
        ordered(value) == parts.ordered(),
{
    let parts = take_apart(value);
    proof {
        lemma_json(value);
        parts.lemma_plain();
    }
    parts
}

/// Tells the variants of `serde_json::Value` apart and borrows what they hold.
/// Trusted: nothing of the value is lost or changed.
#[verifier::external_body]
fn look_inside(value: &Value) -> (parts: PartsRef<'_>)
    ensures
        ordered(*value) == parts.ordered(),
{
    match value {
        Value::Null => PartsRef::Null,
        Value::Bool(b) => PartsRef::Bool(*b),
        Value::Number(n) => PartsRef::Number(n),
        Value::String(s) => PartsRef::String(s),
        Value::Array(items) => PartsRef::Array(items),
        Value::Object(object) => PartsRef::Object(object),
    }
}

/// The parts of a JSON value.
pub(crate) fn parts_of(value: &Value) -> (parts: PartsRef<'_>)
    ensures
        json(*value) == parts.json(),
        ordered(*value) == parts.ordered(),
{
    let parts = look_inside(value);
    proof {
        lemma_json(*value);
        parts.lemma_plain();
    }
    parts
}

/// Builds a `serde_json::Value` with the variant that the parts name.
/// Trusted: the value holds exactly the parts.
#[verifier::external_body]
fn put_together(parts: Parts) -> (value: Value)
    ensures
        ordered(value) == parts.ordered(),
{
    match parts {
        Parts::Null => Value::Null,
        Parts::Bool(b) => Value::Bool(b),
        Parts::Number(n) => Value::Number(n),
        Parts::String(s) => Value::String(s),
        Parts::Array(items) => Value::Array(items),
        Parts::Object(object) => Value::Object(object),
    }
}

/// The JSON value of the parts.
pub(crate) fn from_parts(parts: Parts) -> (value: Value)
    ensures
        json(value) == parts.json(),
        ordered(value) == parts.ordered(),
{
    let value = put_together(parts);
    proof {
        lemma_json(value);
        parts.lemma_plain();
    }
    value
}

/// `serde_json::Value::clone`. Trusted: the copy holds the same JSON value, its members in
/// the same order.
#[verifier::external_body]
fn copy_value(value: &Value) -> (copy: Value)
    ensures
        ordered(copy) == ordered(*value),
{
    value.clone()
}

/// A copy of a JSON value.
pub(crate) fn clone_value(value: &Value) -> (copy: Value)
    ensures
        json(copy) == json(*value),
        ordered(copy) == ordered(*value),
{
    let copy = copy_value(value);
    proof {
        lemma_json(copy);
        lemma_json(*value);
    }
    copy
}

/// `serde_json::Map::clone`. Trusted: the copy has the same members in the same order.
#[verifier::external_body]
fn copy_object(object: &Object) -> (copy: Object)
    ensures
        ordered_members(copy) == ordered_members(*object),
{
    object.clone()
}

/// A copy of an object.
pub(crate) fn clone_object(object: &Object) -> (copy: Object)
    ensures
        members(copy) == members(*object),
        ordered_members(copy) == ordered_members(*object),
{
    let copy = copy_object(object);
    proof {
        lemma_members(copy);
        lemma_members(*object);
    }
    copy
}

/// `serde_json::Map::new`. Trusted: the new object has no members.
#[verifier::external_body]
fn fresh_object() -> (object: Object)
    ensures
        ordered_members(object) == no_entries(),
{
    serde_json::Map::new()
}

/// The object without members.
pub(crate) fn new_object() -> (object: Object)
    ensures
        members(object) == no_members(),
        ordered_members(object) == no_entries(),
{
    let object = fresh_object();
    proof {
        lemma_members(object);
    }
    object
}

/// `serde_json::Map::get`. Trusted: it finds the one member of that name, if there is one.
#[verifier::external_body]
fn find<'a>(object: &'a Object, key: &str) -> (member: Option<&'a Value>)
    ensures
        match member {
            Some(value) => exists|i: int|
                0 <= i < ordered_members(*object).len() && #[trigger] ordered_members(*object)[i]
                    == (key@, ordered(*value)) && forall|j: int|
                    0 <= j < ordered_members(*object).len() && j != i ==> (
                    #[trigger] ordered_members(*object)[j]).0 != key@,
            None => !has_member(ordered_members(*object), key@),
        },
{
    object.get(key)
}

/// The member of that name, if there is one.
pub(crate) fn get<'a>(object: &'a Object, key: &str) -> (member: Option<&'a Value>)
    ensures
        match member {
            Some(value) => members(*object).contains_key(key@) && json(*value) == members(
                *object,
            )[key@],
            None => !members(*object).contains_key(key@),
        },
{
    let member = find(object, key);
    proof {
        let entries = ordered_members(*object);
        lemma_members(*object);
        match member {
            Some(value) => {
                lemma_json(*value);
                let i = choose|i: int|
                    0 <= i < entries.len() && #[trigger] entries[i] == (key@, ordered(*value))
                        && forall|j: int|
                        0 <= j < entries.len() && j != i ==> (#[trigger] entries[j]).0 != key@;
                lemma_found(entries, i);
            },
            None => {
                lemma_has(entries, key@);
            },
        }
    }
    member
}

/// `serde_json::Map::insert`. Trusted: the member of that name has the given value
/// afterwards, in its place where there was one, else at the end, and the other members are
/// as they were.
#[verifier::external_body]
fn put_member(object: &mut Object, key: String, value: Value)
    ensures
        ordered_members(*final(object)) == put(ordered_members(*old(object)), key@, ordered(value)),
{
    object.insert(key, value);
}

/// Gives the member of that name the value.
pub(crate) fn insert(object: &mut Object, key: String, value: Value)
    ensures
        members(*final(object)) == members(*old(object)).insert(key@, json(value)),
        ordered_members(*final(object)) == put(ordered_members(*old(object)), key@, ordered(value)),
{
    proof {
        lemma_members(*object);
        lemma_json(value);
        lemma_put(ordered_members(*object), key@, ordered(value));
    }
    put_member(object, key, value);
    proof {
        lemma_members(*object);
    }
}

/// `serde_json::Map::is_empty`. Trusted: true for the object without members,
/// and for no other.
#[verifier::external_body]
fn has_no_members(object: &Object) -> (empty: bool)
    ensures
        empty == (ordered_members(*object).len() == 0),
{
    object.is_empty()
}

/// Whether an object has no members.
pub(crate) fn is_empty(object: &Object) -> (empty: bool)
    ensures
        empty == (members(*object) == no_members()),
        empty == (ordered_members(*object) == no_entries()),
{
    let empty = has_no_members(object);
    proof {
        let entries = ordered_members(*object);
        lemma_members(*object);
        if entries.len() > 0 {
            assert(plain_members(entries).contains_key(entries.last().0));
        } else {
            assert(entries =~= no_entries());
        }
    }
    empty
}

/// `serde_json::Map::iter`. Trusted: it hands out each member once, with its
/// name and value, in the order in which the object keeps them, and no two have one name.
#[verifier::external_body]
fn list_members(object: &Object) -> (list: Vec<(&String, &Value)>)
    ensures
        list@.len() == ordered_members(*object).len(),
        forall|i: int|
            0 <= i < list@.len() ==> ordered_members(*object)[i] == (
                (#[trigger] list@[i]).0@,
                ordered(*list@[i].1),
            ),
        forall|i: int, j: int|
            0 <= i < j < list@.len() ==> (#[trigger] list@[i]).0@ != (#[trigger] list@[j]).0@,
{
    object.iter().collect()
}

/// The members of an object, in order, each once.
pub(crate) fn entries(object: &Object) -> (list: Vec<(&String, &Value)>)
    ensures
        list@.len() == ordered_members(*object).len(),
        forall|i: int|
            0 <= i < list@.len() ==> ordered_members(*object)[i] == (
                (#[trigger] list@[i]).0@,
                ordered(*list@[i].1),
            ),
        forall|i: int|
            0 <= i < list@.len() ==> members(*object).contains_key((#[trigger] list@[i]).0@)
                && json(*list@[i].1) == members(*object)[list@[i].0@],
        forall|i: int, j: int|
            0 <= i < j < list@.len() ==> (#[trigger] list@[i]).0@ != (#[trigger] list@[j]).0@,
        forall|key: Seq<char>| #[trigger]
            members(*object).contains_key(key) ==> exists|i: int|
                0 <= i < list@.len() && (#[trigger] list@[i]).0@ == key,
{
    let list = list_members(object);
    proof {
        let all = ordered_members(*object);
        lemma_members(*object);
        assert forall|i: int| 0 <= i < list@.len() implies members(*object).contains_key(
            (#[trigger] list@[i]).0@,
        ) && json(*list@[i].1) == members(*object)[list@[i].0@] by {
            lemma_json(*list@[i].1);
            assert forall|j: int| 0 <= j < all.len() && j != i implies (#[trigger] all[j]).0
                != all[i].0 by {
                assert(list@[j].0@ == all[j].0);
                assert(list@[i].0@ == all[i].0);
            }
            lemma_found(all, i);
        }
        assert forall|key: Seq<char>| #[trigger]
            members(*object).contains_key(key) implies exists|i: int|
            0 <= i < list@.len() && (#[trigger] list@[i]).0@ == key by {
            lemma_has(all, key);
            let i = choose|i: int| 0 <= i < all.len() && (#[trigger] all[i]).0 == key;
            assert(list@[i].0@ == key);
        }
    }
    list
}

/// `serde_json::to_value` on a `schemars::Schema` that wraps the given value.
/// Trusted: an object is accepted as a schema. The result is the value that [`arranged`]
/// names, which says the same as the schema. In which order the members come is left
/// unsaid but for its name.
#[verifier::external_body]
fn write_schema(schema: Object) -> (value: Result<Value, serde_json::Error>)
    ensures
        value is Ok,
        ordered(value->Ok_0) == arranged(Ordered::Object(ordered_members(schema))),
        plain(ordered(value->Ok_0)) == plain(Ordered::Object(ordered_members(schema))),
{
    serde_json::to_value(schemars::Schema::from(schema))
}

/// The schema as `schemars` writes it.
pub(crate) fn schema_to_value(schema: Object) -> (value: Result<Value, serde_json::Error>)
    ensures
        value is Ok,
        ordered(value->Ok_0) == arranged(Ordered::Object(ordered_members(schema))),
        json(value->Ok_0) == Json::Object(members(schema)),
{
    let value = write_schema(schema);
    proof {
        lemma_members(schema);
        lemma_json(value->Ok_0);
    }
    value
}

/// A schema as it stands inside another: as `schemars` writes it.
pub(crate) fn nested(schema: Value) -> (value: Value)
    ensures
        ordered(value) == written(ordered(schema)),
        json(value) == json(schema),
{
    match into_parts(schema) {
        Parts::Object(object) => schema_to_value(object).unwrap(),
        parts => from_parts(parts),
    }
}

/// `serde_json::to_string_pretty` on an object. Trusted: printing an object of JSON values
/// does not fail, and the text has the length that [`pretty_len`] names. The text itself is
/// left open.
#[verifier::external_body]
pub(crate) fn to_string_pretty(object: &Object) -> (printed: Result<String, serde_json::Error>)
    ensures
        printed is Ok,
        byte_len(printed->Ok_0@) == pretty_len(Json::Object(members(*object))),
{
    serde_json::to_string_pretty(object)
}

/// The JSON null.
pub fn null() -> (value: Value)
    ensures
        json(value) == Json::Null,
        ordered(value) == Ordered::Null,
{
    from_parts(Parts::Null)
}

/// The JSON string with the given text.
pub fn string(s: String) -> (value: Value)
    ensures
        json(value) == text(s@),
        ordered(value) == Ordered::String(s@),
{
    from_parts(Parts::String(s))
}

/// The JSON array of the given items.
pub fn array(items: Vec<Value>) -> (value: Value)
    ensures
        json(value) == Json::Array(jsons(items@)),
        ordered(value) == Ordered::Array(ordereds(items@)),
{
    from_parts(Parts::Array(items))
}

/// The JSON object with the given members.
pub fn object(of: Object) -> (value: Value)
    ensures
        json(value) == Json::Object(members(of)),
        ordered(value) == Ordered::Object(ordered_members(of)),
{
    from_parts(Parts::Object(of))
}

/// The JSON object with one member.
pub fn single(key: &str, value: Value) -> (r: Value)
    ensures
        json(r) == singleton(key@, json(value)),
        ordered(r) == ordered_singleton(key@, ordered(value)),
{
    let mut members_of = new_object();
    insert(&mut members_of, key.to_owned(), value);
    object(members_of)
}

/// Putting a member changes no other: a new one goes to the end, and one that is there keeps
/// its place.
pub proof fn law_put(entries: Seq<(Seq<char>, Ordered)>, key: Seq<char>, value: Ordered)
    ensures
        (forall|i: int| 0 <= i < entries.len() ==> (#[trigger] entries[i]).0 != key) ==> put(
            entries,
            key,
            value,
        ) == entries.push((key, value)),
        (exists|i: int| 0 <= i < entries.len() && (#[trigger] entries[i]).0 == key) ==> {
            &&& put(entries, key, value).len() == entries.len()
            &&& forall|i: int|
                0 <= i < entries.len() ==> (#[trigger] put(entries, key, value)[i]) == if
                    entries[i].0 == key {
                    (key, value)
                } else {
                    entries[i]
                }
        },
{
}

/// A schema is written as `schemars` arranges it. What is no object is written as it is.
pub proof fn law_written(entries: Seq<(Seq<char>, Ordered)>, schema: Ordered)
    ensures
        written(Ordered::Object(entries)) == arranged(Ordered::Object(entries)),
        !(schema is Object) ==> written(schema) == schema,
{
}

/// What a value says, kind by kind: only the order of the members of an object is forgotten.
pub proof fn law_plain(items: Seq<Ordered>, entries: Seq<(Seq<char>, Ordered)>, i: int)
    ensures
        plain(Ordered::Null) == Json::Null,
        plain(Ordered::Bool(true)) == Json::Bool(true),
        plain(Ordered::Bool(false)) == Json::Bool(false),
        plain(Ordered::Array(items)) is Array,
        plain(Ordered::Array(items))->Array_0.len() == items.len(),
        0 <= i < items.len() ==> plain(Ordered::Array(items))->Array_0[i] == plain(items[i]),
        plain(Ordered::Object(entries)) is Object,
        0 <= i < entries.len() && (forall|j: int|
            0 <= j < entries.len() && j != i ==> (#[trigger] entries[j]).0 != entries[i].0) ==> {
            &&& plain(Ordered::Object(entries))->Object_0.contains_key(entries[i].0)
            &&& plain(Ordered::Object(entries))->Object_0[entries[i].0] == plain(entries[i].1)
        },
{
    lemma_plain_items(items, i);
    if 0 <= i < entries.len() && (forall|j: int|
        0 <= j < entries.len() && j != i ==> (#[trigger] entries[j]).0 != entries[i].0) {
        lemma_found(entries, i);
    }
}

proof fn lemma_plain_items(items: Seq<Ordered>, i: int)
    ensures
        plain_items(items).len() == items.len(),
        0 <= i < items.len() ==> plain_items(items)[i] == plain(items[i]),
    decreases items.len(),
{
    if items.len() > 0 {
        lemma_plain_items(items.drop_last(), i);
    }
}

} // verus!
