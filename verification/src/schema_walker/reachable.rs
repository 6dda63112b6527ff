//! Which types a type leads to.

use crate::graphql::{ExtendedType, InputField};
use crate::json::Json;
use crate::schema_walker::definitions::{defined, definition, referred, Scalars};
use vstd::prelude::*;

verus! {

/// The types of a schema.
pub type Types = Map<Seq<char>, ExtendedType>;

/// Whether the type of a field, inside all list and non-null markers, is the name.
pub open spec fn field_of(field: InputField, name: Seq<char>) -> bool {
    field.ty.view().inner_name() == name
}

/// The names that are the types of fields.
pub open spec fn field_types(fields: Seq<InputField>) -> Set<Seq<char>> {
    Set::new(
        |name: Seq<char>|
            exists|i: int| 0 <= i < fields.len() && field_of(#[trigger] fields[i], name),
    )
}

/// The names that the definition of a name mentions: the types of its fields.
pub open spec fn mentioned(types: Types, name: Seq<char>) -> Set<Seq<char>> {
    match types[name] {
        ExtendedType::InputObject(ty) => field_types(ty.fields@),
        _ => Set::empty(),
    }
}

/// Whether the name gets a definition and has none yet.
pub open spec fn missing(types: Types, cached: Map<Seq<char>, Json>, name: Seq<char>) -> bool {
    defined(types, name) && !cached.contains_key(name)
}

/// Whether a chain of `n` mentions leads from one name to another, through names
/// that have no definition yet.
pub open spec fn leads_to(
    types: Types,
    cached: Map<Seq<char>, Json>,
    from: Seq<char>,
    to: Seq<char>,
    n: nat,
) -> bool
    decreases n,
{
    missing(types, cached, from) && if n == 0 {
        from == to
    } else {
        exists|next: Seq<char>| #[trigger]
            mentioned(types, from).contains(next) && leads_to(
                types,
                cached,
                next,
                to,
                (n - 1) as nat,
            )
    }
}

/// Whether one of the roots leads to the name.
pub open spec fn reached(
    types: Types,
    cached: Map<Seq<char>, Json>,
    roots: Set<Seq<char>>,
    name: Seq<char>,
) -> bool {
    exists|root: Seq<char>, n: nat|
        roots.contains(root) && #[trigger] leads_to(types, cached, root, name, n)
}

/// The definitions that are there once the roots have been walked: those that were
/// there, and one for each name that the roots lead to.
pub open spec fn collected(
    types: Types,
    scalars: Scalars,
    cached: Map<Seq<char>, Json>,
    roots: Set<Seq<char>>,
) -> Map<Seq<char>, Json> {
    Map::new(
        |name: Seq<char>| cached.contains_key(name) || reached(types, cached, roots, name),
        |name: Seq<char>|
            if cached.contains_key(name) {
                cached[name]
            } else {
                definition(types, scalars, referred(types, cached), name)
            },
    )
}

/// What a chain leads to gets a definition.
pub(crate) proof fn lemma_leads_to_missing(
    types: Types,
    cached: Map<Seq<char>, Json>,
    from: Seq<char>,
    to: Seq<char>,
    n: nat,
)
    requires
        leads_to(types, cached, from, to, n),
    ensures
        missing(types, cached, to),
        missing(types, cached, from),
    decreases n,
{
    if n > 0 {
        let next = choose|next: Seq<char>| #[trigger]
            mentioned(types, from).contains(next) && leads_to(
                types,
                cached,
                next,
                to,
                (n - 1) as nat,
            );
        lemma_leads_to_missing(types, cached, next, to, (n - 1) as nat);
    }
}

/// A chain stays one when fewer names have definitions.
proof fn lemma_leads_to_fewer(
    types: Types,
    more: Map<Seq<char>, Json>,
    fewer: Map<Seq<char>, Json>,
    from: Seq<char>,
    to: Seq<char>,
    n: nat,
)
    requires
        leads_to(types, more, from, to, n),
        fewer.dom().subset_of(more.dom()),
    ensures
        leads_to(types, fewer, from, to, n),
    decreases n,
{
    if n > 0 {
        let next = choose|next: Seq<char>| #[trigger]
            mentioned(types, from).contains(next) && leads_to(
                types,
                more,
                next,
                to,
                (n - 1) as nat,
            );
        lemma_leads_to_fewer(types, more, fewer, next, to, (n - 1) as nat);
    }
}

/// Two chains make one.
pub(crate) proof fn lemma_leads_to_trans(
    types: Types,
    cached: Map<Seq<char>, Json>,
    a: Seq<char>,
    b: Seq<char>,
    c: Seq<char>,
    m: nat,
    n: nat,
)
    requires
        leads_to(types, cached, a, b, m),
        leads_to(types, cached, b, c, n),
    ensures
        leads_to(types, cached, a, c, m + n),
    decreases m,
{
    if m > 0 {
        let next = choose|next: Seq<char>| #[trigger]
            mentioned(types, a).contains(next) && leads_to(types, cached, next, b, (m - 1) as nat);
        lemma_leads_to_trans(types, cached, next, b, c, (m - 1) as nat, n);
        assert((m - 1) as nat + n == (m + n - 1) as nat);
        assert(leads_to(types, cached, next, c, (m + n - 1) as nat));
    }
}

/// A chain avoids further names, or passes through one of them: then the part from
/// the last such name on avoids the others.
proof fn lemma_leads_to_split(
    types: Types,
    fewer: Map<Seq<char>, Json>,
    more: Map<Seq<char>, Json>,
    from: Seq<char>,
    to: Seq<char>,
    n: nat,
) -> (through: Option<(Seq<char>, nat)>)
    requires
        leads_to(types, fewer, from, to, n),
    ensures
        match through {
            None => leads_to(types, more, from, to, n),
            Some((x, k)) => more.contains_key(x) && leads_to(types, fewer, x, to, k),
        },
    decreases n,
{
    if more.contains_key(from) {
        Some((from, n))
    } else if n == 0 {
        None
    } else {
        let next = choose|next: Seq<char>| #[trigger]
            mentioned(types, from).contains(next) && leads_to(
                types,
                fewer,
                next,
                to,
                (n - 1) as nat,
            );
        lemma_leads_to_split(types, fewer, more, next, to, (n - 1) as nat)
    }
}

/// Walking adds definitions only of names that get one, so the names that are
/// referred to stay the same.
pub(crate) proof fn lemma_referred_same(
    types: Types,
    scalars: Scalars,
    cached: Map<Seq<char>, Json>,
    roots: Set<Seq<char>>,
)
    ensures
        referred(types, collected(types, scalars, cached, roots)) == referred(types, cached),
        cached.dom().subset_of(collected(types, scalars, cached, roots).dom()),
{
    let after = collected(types, scalars, cached, roots);
    assert forall|name: Seq<char>| after.contains_key(name) implies cached.contains_key(name)
        || defined(types, name) by {
        if !cached.contains_key(name) {
            let (root, n) = choose|root: Seq<char>, n: nat|
                roots.contains(root) && #[trigger] leads_to(types, cached, root, name, n);
            lemma_leads_to_missing(types, cached, root, name, n);
        }
    }
    assert(referred(types, after) =~= referred(types, cached));
}

/// Walking some roots and then others is walking them all.
pub(crate) proof fn lemma_collected_step(
    types: Types,
    scalars: Scalars,
    cached: Map<Seq<char>, Json>,
    first: Set<Seq<char>>,
    second: Set<Seq<char>>,
)
    ensures
        collected(types, scalars, collected(types, scalars, cached, first), second) == collected(
            types,
            scalars,
            cached,
            first.union(second),
        ),
{
    let between = collected(types, scalars, cached, first);
    let left = collected(types, scalars, between, second);
    let right = collected(types, scalars, cached, first.union(second));
    lemma_referred_same(types, scalars, cached, first);
    assert forall|name: Seq<char>| left.contains_key(name) == right.contains_key(name) by {
        if left.contains_key(name) && !cached.contains_key(name) {
            if between.contains_key(name) {
                let (root, n) = choose|root: Seq<char>, n: nat|
                    first.contains(root) && #[trigger] leads_to(types, cached, root, name, n);
                assert(first.union(second).contains(root));
            } else {
                let (root, n) = choose|root: Seq<char>, n: nat|
                    second.contains(root) && #[trigger] leads_to(types, between, root, name, n);
                lemma_leads_to_fewer(types, between, cached, root, name, n);
                assert(first.union(second).contains(root));
            }
        }
        if right.contains_key(name) && !cached.contains_key(name) {
            let (root, n) = choose|root: Seq<char>, n: nat|
                first.union(second).contains(root) && #[trigger] leads_to(
                    types,
                    cached,
                    root,
                    name,
                    n,
                );
            if first.contains(root) {
                assert(between.contains_key(name));
            } else {
                let through = lemma_leads_to_split(types, cached, between, root, name, n);
                if let Some((x, k)) = through {
                    lemma_leads_to_missing(types, cached, x, name, k);
                    let (start, m) = choose|start: Seq<char>, m: nat|
                        first.contains(start) && #[trigger] leads_to(types, cached, start, x, m);
                    lemma_leads_to_trans(types, cached, start, x, name, m, k);
                    assert(between.contains_key(name));
                }
            }
        }
    }
    assert(left =~= right);
}

/// Walking nothing leaves the definitions as they are.
pub(crate) proof fn lemma_collected_none(
    types: Types,
    scalars: Scalars,
    cached: Map<Seq<char>, Json>,
)
    ensures
        collected(types, scalars, cached, Set::empty()) == cached,
{
    assert(collected(types, scalars, cached, Set::empty()) =~= cached);
}

/// Walking a name whose definition is there, or that gets none, changes nothing.
pub(crate) proof fn lemma_collected_known(
    types: Types,
    scalars: Scalars,
    cached: Map<Seq<char>, Json>,
    name: Seq<char>,
)
    requires
        !missing(types, cached, name),
    ensures
        collected(types, scalars, cached, set![name]) == cached,
{
    assert forall|other: Seq<char>| !reached(types, cached, set![name], other) by {
        if reached(types, cached, set![name], other) {
            let (root, n) = choose|root: Seq<char>, n: nat|
                set![name].contains(root) && #[trigger] leads_to(types, cached, root, other, n);
            lemma_leads_to_missing(types, cached, root, other, n);
        }
    }
    assert(collected(types, scalars, cached, set![name]) =~= cached);
}

/// A chain from what a name mentions, through any names, gives one that avoids the
/// name itself, unless it ends there.
proof fn lemma_leads_to_past(
    types: Types,
    cached: Map<Seq<char>, Json>,
    placeholder: Json,
    name: Seq<char>,
    from: Seq<char>,
    to: Seq<char>,
    n: nat,
)
    requires
        leads_to(types, cached, from, to, n),
        from == name || reached(
            types,
            cached.insert(name, placeholder),
            mentioned(types, name),
            from,
        ),
    ensures
        to == name || reached(types, cached.insert(name, placeholder), mentioned(types, name), to),
    decreases n,
{
    let held = cached.insert(name, placeholder);
    if n > 0 {
        let next = choose|next: Seq<char>| #[trigger]
            mentioned(types, from).contains(next) && leads_to(
                types,
                cached,
                next,
                to,
                (n - 1) as nat,
            );
        lemma_leads_to_missing(types, cached, next, to, (n - 1) as nat);
        if next != name {
            assert(missing(types, held, next));
            assert(leads_to(types, held, next, next, 0));
            if from != name {
                let (root, k) = choose|root: Seq<char>, k: nat|
                    mentioned(types, name).contains(root) && #[trigger] leads_to(
                        types,
                        held,
                        root,
                        from,
                        k,
                    );
                lemma_leads_to_missing(types, held, root, from, k);
                assert(leads_to(types, held, from, next, 1));
                lemma_leads_to_trans(types, held, root, from, next, k, 1);
            }
        }
        lemma_leads_to_past(types, cached, placeholder, name, next, to, (n - 1) as nat);
    }
}

/// Walking a name that has no definition yet: its mentions are walked while
/// something holds its place, and its definition is put there at the end.
pub(crate) proof fn lemma_collected_name(
    types: Types,
    scalars: Scalars,
    cached: Map<Seq<char>, Json>,
    placeholder: Json,
    name: Seq<char>,
)
    requires
        missing(types, cached, name),
    ensures
        collected(
            types,
            scalars,
            cached.insert(name, placeholder),
            mentioned(types, name),
        ).insert(name, definition(types, scalars, referred(types, cached), name)) == collected(
            types,
            scalars,
            cached,
            set![name],
        ),
        referred(types, cached.insert(name, placeholder)) == referred(types, cached),
{
    let held = cached.insert(name, placeholder);
    assert(referred(types, held) =~= referred(types, cached));
    let left = collected(types, scalars, held, mentioned(types, name)).insert(
        name,
        definition(types, scalars, referred(types, cached), name),
    );
    let right = collected(types, scalars, cached, set![name]);
    assert(leads_to(types, cached, name, name, 0));
    assert(right.contains_key(name));
    assert forall|other: Seq<char>| left.contains_key(other) == right.contains_key(other) by {
        if other != name && !cached.contains_key(other) {
            if left.contains_key(other) {
                let (root, n) = choose|root: Seq<char>, n: nat|
                    mentioned(types, name).contains(root) && #[trigger] leads_to(
                        types,
                        held,
                        root,
                        other,
                        n,
                    );
                lemma_leads_to_fewer(types, held, cached, root, other, n);
                assert(((n + 1) as nat - 1) as nat == n);
                assert(leads_to(types, cached, name, other, (n + 1) as nat));
            }
            if right.contains_key(other) {
                let (root, n) = choose|root: Seq<char>, n: nat|
                    set![name].contains(root) && #[trigger] leads_to(
                        types,
                        cached,
                        root,
                        other,
                        n,
                    );
                lemma_leads_to_past(types, cached, placeholder, name, root, other, n);
            }
        }
    }
    assert(left =~= right);
}

/// It does not matter in which order roots are walked, and walking them again changes
/// nothing.
pub proof fn law_walking_is_order_free(
    types: Types,
    scalars: Scalars,
    cached: Map<Seq<char>, Json>,
    a: Set<Seq<char>>,
    b: Set<Seq<char>>,
)
    ensures
        collected(types, scalars, collected(types, scalars, cached, a), b) == collected(
            types,
            scalars,
            collected(types, scalars, cached, b),
            a,
        ),
        collected(types, scalars, collected(types, scalars, cached, a), a) == collected(
            types,
            scalars,
            cached,
            a,
        ),
{
    lemma_collected_step(types, scalars, cached, a, b);
    lemma_collected_step(types, scalars, cached, b, a);
    lemma_collected_step(types, scalars, cached, a, a);
    assert(a.union(b) =~= b.union(a));
    assert(a.union(a) =~= a);
}

} // verus!
