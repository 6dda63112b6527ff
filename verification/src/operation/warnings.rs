//! What is to be told of the types of an operation's variables.

use crate::document::{variable_views, OperationDef, VariableView};
use crate::graphql::{ExtendedType, GraphqlSchema, InputField};
use crate::json::{self, Json, Object};
use crate::notice::{Notice, NoticeLevel, NoticeView};
use crate::operation::input_schema::{members_of, open_variables, variable_type_names};
use crate::schema_walker::definitions::{basic_type, defined, Scalars};
use crate::schema_walker::layout::{field_names, lemma_unseen, mentions, unseen};
use crate::schema_walker::reachable::Types;
use crate::schema_walker::shape::{is_built_in_name, is_defined_name};
use crate::schema_walker::walk::{basic_schema_type, scalars_of, CustomScalarMap};
use crate::string_map::StringMap;
use vstd::prelude::*;

verus! {

/// Something that the JSON Schema of a type cannot say.
#[derive(Debug)]
pub enum Warning {
    /// The schema has no such type, or none that can be put in.
    TypeNotFound(String),
    /// There are schemas for custom scalars, but none for this one.
    ScalarNotMapped(String),
    /// There are no schemas for custom scalars.
    ScalarsNotMapped(String),
}

/// What a warning says.
pub enum WarningView {
    TypeNotFound(Seq<char>),
    ScalarNotMapped(Seq<char>),
    ScalarsNotMapped(Seq<char>),
}

impl View for Warning {
    type V = WarningView;

    open spec fn view(&self) -> WarningView {
        match self {
            Warning::TypeNotFound(name) => WarningView::TypeNotFound(name@),
            Warning::ScalarNotMapped(name) => WarningView::ScalarNotMapped(name@),
            Warning::ScalarsNotMapped(name) => WarningView::ScalarsNotMapped(name@),
        }
    }
}

impl WarningView {
    /// The type that the warning is about.
    pub open spec fn name(self) -> Seq<char> {
        match self {
            WarningView::TypeNotFound(name) => name,
            WarningView::ScalarNotMapped(name) => name,
            WarningView::ScalarsNotMapped(name) => name,
        }
    }

    /// The words of the warning.
    pub open spec fn words(self) -> Seq<char> {
        match self {
            WarningView::TypeNotFound(_) => "Type not found in schema"@,
            WarningView::ScalarNotMapped(_) => "custom scalar missing from custom_scalar_map"@,
            WarningView::ScalarsNotMapped(_) =>
                "custom scalars aren't currently supported without a custom_scalar_map"@,
        }
    }
}

/// What the warnings say.
pub open spec fn warning_views(warnings: Seq<Warning>) -> Seq<WarningView> {
    warnings.map_values(|warning: Warning| warning@)
}

impl Warning {
    /// The warning as a line for the log.
    pub fn notice(&self) -> (notice: Notice)
        ensures
            notice@ == (NoticeView {
                level: NoticeLevel::Warn,
                text: self@.words() + " name=\""@ + self@.name() + "\""@,
            }),
    {
        let (words, name) = match self {
            Warning::TypeNotFound(name) => ("Type not found in schema", name),
            Warning::ScalarNotMapped(name) => (
                "custom scalar missing from custom_scalar_map",
                name,
            ),
            Warning::ScalarsNotMapped(name) => (
                "custom scalars aren't currently supported without a custom_scalar_map",
                name,
            ),
        };
        let mut text = words.to_owned();
        text.append(" name=\"");
        text.append(name.as_str());
        text.append("\"");
        Notice { level: NoticeLevel::Warn, text }
    }
}

/// The warning about a type, where there is one.
pub open spec fn warning_for(types: Types, scalars: Scalars, name: Seq<char>) -> Option<
    WarningView,
> {
    if basic_type(name) is Some {
        None
    } else if !defined(types, name) {
        Some(WarningView::TypeNotFound(name))
    } else if types[name] is Scalar {
        match scalars {
            None => Some(WarningView::ScalarsNotMapped(name)),
            Some(map) => if map.contains_key(name) {
                None
            } else {
                Some(WarningView::ScalarNotMapped(name))
            },
        }
    } else {
        None
    }
}

/// What is to be told when the pending types are walked one after the other, where those that
/// are seen have a definition already: of a type that gets a definition once, before what is
/// to be told of the types that it mentions, and of any other each time that it is met.
pub open spec fn warned(
    types: Types,
    scalars: Scalars,
    seen: Set<Seq<char>>,
    pending: Seq<Seq<char>>,
) -> Seq<WarningView>
    decreases unseen(types, seen), pending.len(),
    when types.dom().finite()
    via warned_decreases
{
    if pending.len() == 0 {
        Seq::empty()
    } else if seen.contains(pending[0]) {
        warned(types, scalars, seen, pending.drop_first())
    } else if defined(types, pending[0]) {
        told(warning_for(types, scalars, pending[0])) + warned(
            types,
            scalars,
            seen.insert(pending[0]),
            mentions(types, pending[0]) + pending.drop_first(),
        )
    } else {
        told(warning_for(types, scalars, pending[0])) + warned(
            types,
            scalars,
            seen,
            pending.drop_first(),
        )
    }
}

#[via_fn]
proof fn warned_decreases(
    types: Types,
    scalars: Scalars,
    seen: Set<Seq<char>>,
    pending: Seq<Seq<char>>,
) {
    if pending.len() > 0 && defined(types, pending[0]) && !seen.contains(pending[0]) {
        lemma_unseen(types, seen, pending[0]);
    }
}

/// The warning as a sequence.
pub open spec fn told(warning: Option<WarningView>) -> Seq<WarningView> {
    match warning {
        Some(warning) => seq![warning],
        None => Seq::empty(),
    }
}

/// The warning about a type, where there is one.
fn warning_about(
    name: &str,
    graphql_schema: &GraphqlSchema,
    custom_scalar_map: Option<&CustomScalarMap>,
) -> (r: Option<Warning>)
    ensures
        warning_for(graphql_schema.types@, scalars_of(custom_scalar_map), name@) == match r {
            Some(warning) => Some(warning@),
            None => None,
        },
{
    if basic_schema_type(name).is_some() {
        return None;
    }
    match graphql_schema.types.get(name) {
        Some(ExtendedType::Enum(_)) | Some(ExtendedType::InputObject(_)) => None,
        Some(ExtendedType::Scalar(_)) => match custom_scalar_map {
            None => Some(Warning::ScalarsNotMapped(name.to_owned())),
            Some(map) => if map.contains_key(name) {
                None
            } else {
                Some(Warning::ScalarNotMapped(name.to_owned()))
            },
        },
        _ => Some(Warning::TypeNotFound(name.to_owned())),
    }
}

/// Whether the type gets a definition of its own.
fn is_defined(name: &str, graphql_schema: &GraphqlSchema) -> (r: bool)
    ensures
        r == defined(graphql_schema.types@, name@),
{
    if basic_schema_type(name).is_some() {
        return false;
    }
    match graphql_schema.types.get(name) {
        Some(ExtendedType::Enum(_)) | Some(ExtendedType::InputObject(_)) | Some(
            ExtendedType::Scalar(_),
        ) => true,
        _ => false,
    }
}

/// Whether the stack holds the names, the first of them on top.
spec fn stacks(stack: Seq<&String>, names: Seq<Seq<char>>) -> bool {
    &&& stack.len() == names.len()
    &&& forall|i: int| 0 <= i < stack.len() ==> (#[trigger] stack[i])@ == names[stack.len() - 1 - i]
}

/// Puts the types of fields on the stack, that of the first field on top.
fn push_fields<'a>(stack: &mut Vec<&'a String>, fields: &'a Vec<InputField>)
    ensures
        forall|names: Seq<Seq<char>>| #[trigger]
            stacks(old(stack)@, names) ==> stacks(final(stack)@, field_names(fields@) + names),
{
    let ghost before = stack@;
    let ghost all = field_names(fields@);
    let mut i: usize = fields.len();
    while i > 0
        invariant
            i <= fields@.len(),
            all == field_names(fields@),
            stack@.len() == before.len() + fields@.len() - i,
            stack@.take(before.len() as int) =~= before,
            forall|j: int|
                before.len() <= j < stack@.len() ==> (#[trigger] stack@[j])@ == all[fields@.len()
                    - 1 - (j - before.len())],
        decreases i,
    {
        i -= 1;
        let ghost earlier = stack@;
        stack.push(fields[i].ty.inner_named_type());
        assert(stack@.take(before.len() as int) =~= earlier.take(before.len() as int));
    }
    proof {
        assert forall|names: Seq<Seq<char>>| #[trigger] stacks(before, names) implies stacks(
            stack@,
            all + names,
        ) by {
            assert forall|j: int| 0 <= j < stack@.len() implies (#[trigger] stack@[j])@ == (all
                + names)[stack@.len() - 1 - j] by {
                if j < before.len() {
                    assert(stack@.take(before.len() as int)[j] == stack@[j]);
                    assert(before[j]@ == names[before.len() - 1 - j]);
                }
            }
        }
    }
}

/// What is to be told of the types of an operation's variables that have no value yet, in the
/// order in which the types are met.
pub fn schema_warnings(
    operation: &OperationDef,
    graphql_schema: &GraphqlSchema,
    custom_scalar_map: Option<&CustomScalarMap>,
    variable_overrides: Option<&Object>,
) -> (r: Vec<Warning>)
    ensures
        warning_views(r@) == warned(
            graphql_schema.types@,
            scalars_of(custom_scalar_map),
            Set::empty(),
            variable_type_names(
                open_variables(operation@.variables, members_of(variable_overrides)),
            ),
        ),
{
    let ghost types = graphql_schema.types@;
    let ghost scalars = scalars_of(custom_scalar_map);
    let ghost given = members_of(variable_overrides);
    let ghost all = operation@.variables;
    let mut stack: Vec<&String> = Vec::new();
    let ghost mut pending: Seq<Seq<char>> = Seq::empty();
    let n: usize = operation.variables.len();
    let mut i: usize = n;
    proof {
        graphql_schema.types.lemma_finite();
        assert(all.skip(n as int) =~= Seq::empty());
        reveal(Seq::filter);
        assert(variable_type_names(open_variables(all.skip(n as int), given)) =~= pending);
    }
    while i > 0
        invariant
            i <= n,
            n == operation.variables@.len(),
            all == variable_views(operation.variables@),
            given == members_of(variable_overrides),
            pending == variable_type_names(open_variables(all.skip(i as int), given)),
            stacks(stack@, pending),
        decreases i,
    {
        i -= 1;
        let variable = &operation.variables[i];
        proof {
            lemma_open_first(all, given, i as int);
        }
        let skip: bool = match variable_overrides {
            Some(overrides) => json::get(overrides, variable.name.as_str()).is_some(),
            None => false,
        };
        if !skip {
            let ghost before = stack@;
            let ghost later = pending;
            stack.push(variable.ty.inner_named_type());
            proof {
                pending = seq![variable@.ty.inner_name()] + later;
                assert forall|j: int| 0 <= j < stack@.len() implies (#[trigger] stack@[j])@
                    == pending[stack@.len() - 1 - j] by {
                    if j < before.len() {
                        assert(before[j]@ == later[before.len() - 1 - j]);
                    }
                }
            }
        }
    }
    assert(all.skip(0) =~= all);
    let ghost total = warned(types, scalars, Set::empty(), pending);
    let mut seen: StringMap<bool> = StringMap::new();
    let mut r: Vec<Warning> = Vec::new();
    assert(seen@.dom() =~= Set::empty());
    assert(warning_views(r@) + total =~= total);
    while stack.len() > 0
        invariant
            types == graphql_schema.types@,
            types.dom().finite(),
            scalars == scalars_of(custom_scalar_map),
            stacks(stack@, pending),
            warning_views(r@) + warned(types, scalars, seen@.dom(), pending) == total,
        decreases unseen(types, seen@.dom()), stack@.len(),
    {
        let ghost before = stack@;
        let ghost told_before = warning_views(r@);
        let name = match stack.pop() {
            Some(name) => name,
            None => return r,
        };
        let ghost rest = pending.drop_first();
        proof {
            assert(name@ == pending[0]);
            assert forall|j: int| 0 <= j < stack@.len() implies (#[trigger] stack@[j])@
                == rest[stack@.len() - 1 - j] by {
                assert(before[j]@ == pending[before.len() - 1 - j]);
            }
            assert(stacks(stack@, rest));
        }
        if seen.contains_key(name.as_str()) {
            proof {
                pending = rest;
            }
            continue ;
        }
        let ghost first = told(warning_for(types, scalars, name@));
        if let Some(warning) = warning_about(name.as_str(), graphql_schema, custom_scalar_map) {
            r.push(warning);
        }
        assert(warning_views(r@) =~= told_before + first);
        let ghost earlier = seen@.dom();
        if is_defined(name.as_str(), graphql_schema) {
            seen.insert(name.clone(), true);
            proof {
                assert(seen@.dom() =~= earlier.insert(name@));
                lemma_unseen(types, earlier, name@);
                assert(Seq::<Seq<char>>::empty() + rest =~= rest);
                pending = mentions(types, name@) + rest;
            }
            if let Some(ExtendedType::InputObject(ty)) = graphql_schema.types.get(name.as_str()) {
                push_fields(&mut stack, &ty.fields);
            }
        } else {
            proof {
                pending = rest;
            }
        }
        proof {
            let more = warned(types, scalars, seen@.dom(), pending);
            assert((told_before + first) + more =~= told_before + (first + more));
        }
    }
    assert(warning_views(r@) + Seq::empty() =~= warning_views(r@));
    r
}

/// The open variables from a place on: the one there, where it is open, and those behind it.
proof fn lemma_open_first(variables: Seq<VariableView>, given: Map<Seq<char>, Json>, i: int)
    requires
        0 <= i < variables.len(),
    ensures
        variable_type_names(open_variables(variables.skip(i), given)) == if given.contains_key(
            variables[i].name,
        ) {
            variable_type_names(open_variables(variables.skip(i + 1), given))
        } else {
            seq![variables[i].ty.inner_name()] + variable_type_names(
                open_variables(variables.skip(i + 1), given),
            )
        },
{
    let open = |variable: VariableView| !given.contains_key(variable.name);
    let first = seq![variables[i]];
    let rest = variables.skip(i + 1);
    assert(variables.skip(i) =~= first + rest);
    Seq::filter_distributes_over_add(first, rest, open);
    assert(first.drop_last() =~= Seq::empty());
    assert(first.filter(open) =~= if open(variables[i]) {
        first
    } else {
        Seq::empty()
    }) by {
        reveal(Seq::filter);
        reveal_with_fuel(Seq::filter, 2);
    }
    assert(variable_type_names(first.filter(open) + rest.filter(open)) =~= variable_type_names(
        first.filter(open),
    ) + variable_type_names(rest.filter(open)));
    assert(variable_type_names(first) =~= seq![variables[i].ty.inner_name()]);
    assert(variable_type_names(Seq::empty()) + variable_type_names(rest.filter(open))
        =~= variable_type_names(rest.filter(open)));
}

/// The types of variables are told of as they are met. Nothing is said of a type that every
/// schema has, or that has been met and has its definition. A type that gets no definition is not
/// found, each time. A custom scalar without an operator's schema is told of; other types with
/// definitions are not. Then come the types of the fields, and then what is next.
pub proof fn law_types_are_told_of_as_they_are_met(
    types: Types,
    scalars: Scalars,
    seen: Set<Seq<char>>,
    name: Seq<char>,
    next: Seq<Seq<char>>,
)
    requires
        types.dom().finite(),
    ensures
        warned(types, scalars, seen, Seq::empty()) == Seq::<WarningView>::empty(),
        warned(types, scalars, seen, seq![name] + next) == if is_built_in_name(name)
            || seen.contains(name) {
            warned(types, scalars, seen, next)
        } else if !is_defined_name(types, name) {
            seq![WarningView::TypeNotFound(name)] + warned(types, scalars, seen, next)
        } else {
            match types[name] {
                ExtendedType::Scalar(_) => (match scalars {
                    None => seq![WarningView::ScalarsNotMapped(name)],
                    Some(map) => if map.contains_key(name) {
                        Seq::empty()
                    } else {
                        seq![WarningView::ScalarNotMapped(name)]
                    },
                }) + warned(types, scalars, seen.insert(name), next),
                ExtendedType::InputObject(ty) => warned(
                    types,
                    scalars,
                    seen.insert(name),
                    Seq::new(ty.fields@.len(), |i: int| ty.fields@[i].ty.view().inner_name())
                        + next,
                ),
                _ => warned(types, scalars, seen.insert(name), next),
            }
        },
{
    let pending = seq![name] + next;
    let none: Seq<WarningView> = Seq::empty();
    assert(pending[0] == name);
    assert(pending.drop_first() =~= next);
    assert(warned(types, scalars, seen, Seq::empty()) =~= none);
    if is_built_in_name(name) && !seen.contains(name) {
        assert(none + warned(types, scalars, seen, next) =~= warned(types, scalars, seen, next));
    } else if !seen.contains(name) && is_defined_name(types, name) {
        let more = mentions(types, name) + next;
        assert(none + warned(types, scalars, seen.insert(name), more) =~= warned(
            types,
            scalars,
            seen.insert(name),
            more,
        ));
        match types[name] {
            ExtendedType::InputObject(ty) => {
                assert(mentions(types, name) =~= Seq::new(
                    ty.fields@.len(),
                    |i: int| ty.fields@[i].ty.view().inner_name(),
                ));
            },
            _ => {
                assert(more =~= next);
            },
        }
    }
}

/// What each warning says.
pub proof fn law_words_of_warnings(name: Seq<char>)
    ensures
        WarningView::TypeNotFound(name).words() == "Type not found in schema"@,
        WarningView::ScalarNotMapped(name).words()
            == "custom scalar missing from custom_scalar_map"@,
        WarningView::ScalarsNotMapped(name).words()
            == "custom scalars aren't currently supported without a custom_scalar_map"@,
        WarningView::TypeNotFound(name).name() == name,
        WarningView::ScalarNotMapped(name).name() == name,
        WarningView::ScalarsNotMapped(name).name() == name,
{
}

/// Warnings say what they are about, in order.
pub proof fn law_what_warnings_say(warnings: Seq<Warning>, i: int)
    requires
        0 <= i < warnings.len(),
    ensures
        warning_views(warnings).len() == warnings.len(),
        warning_views(warnings)[i] == match warnings[i] {
            Warning::TypeNotFound(name) => WarningView::TypeNotFound(name@),
            Warning::ScalarNotMapped(name) => WarningView::ScalarNotMapped(name@),
            Warning::ScalarsNotMapped(name) => WarningView::ScalarsNotMapped(name@),
        },
{
}

/// The line of a warning tells what is wrong and the name of the type.
pub proof fn law_lines_of_warnings(name: String, a: Notice, b: Notice, c: Notice)
    requires
        call_ensures(Warning::notice, (&Warning::TypeNotFound(name),), a),
        call_ensures(Warning::notice, (&Warning::ScalarNotMapped(name),), b),
        call_ensures(Warning::notice, (&Warning::ScalarsNotMapped(name),), c),
    ensures
        a.level == NoticeLevel::Warn && b.level == NoticeLevel::Warn && c.level
            == NoticeLevel::Warn,
        a.text@ == "Type not found in schema"@ + " name=\""@ + name@ + "\""@,
        b.text@ == "custom scalar missing from custom_scalar_map"@ + " name=\""@ + name@ + "\""@,
        c.text@ == "custom scalars aren't currently supported without a custom_scalar_map"@
            + " name=\""@ + name@ + "\""@,
{
    let x = Warning::TypeNotFound(name);
    let y = Warning::ScalarNotMapped(name);
    let z = Warning::ScalarsNotMapped(name);
    assert(a@.level == a.level && b@.level == b.level && c@.level == c.level);
    assert(a@.text == x@.words() + " name=\""@ + x@.name() + "\""@);
    assert(b@.text == y@.words() + " name=\""@ + y@.name() + "\""@);
    assert(c@.text == z@.words() + " name=\""@ + z@.name() + "\""@);
}

} // verus!
