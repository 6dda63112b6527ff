//! What the tool that tells of types returns.

use crate::graphql::GraphqlSchema;
use crate::introspect::{
    default_depth, law_kept_directives_are_told_of_in_turn, law_kept_types_are_told_of_in_turn,
    tool_description, Input, Introspect,
};
use crate::json::Object;
use crate::shaken::{DepthLimit, ShakenDirective, ShakenSchema, ShakenType};
use crate::text::views;
use vstd::prelude::*;

verus! {

/// Nothing is answered of a type that the schema lacks.
pub proof fn law_answer_of_an_unknown_type(
    introspect: Introspect,
    input: Input,
    schema: GraphqlSchema,
    shaken: ShakenSchema,
    r: Vec<String>,
)
    requires
        call_ensures(Introspect::execute, (&introspect, &input, &schema, &shaken), r),
        !schema.types@.contains_key(input.name@),
    ensures
        r@.len() == 0,
{
}

/// One kept type more adds its text at the end of the answer, whatever its kind and whatever was
/// asked for, where it may be seen: it is not built in, it is not the root subscription type,
/// and it is the root mutation type only where mutations are allowed or it was asked for.
/// Where it may not be seen the answer stays the same.
pub proof fn law_answer_with_one_type_more(
    introspect: Introspect,
    input: Input,
    schema: GraphqlSchema,
    less: ShakenSchema,
    more: ShakenSchema,
    ty: ShakenType,
    before: Vec<String>,
    after: Vec<String>,
)
    requires
        call_ensures(Introspect::execute, (&introspect, &input, &schema, &less), before),
        call_ensures(Introspect::execute, (&introspect, &input, &schema, &more), after),
        schema.types@.contains_key(input.name@),
        more.directives@ == less.directives@,
        more.types@ == less.types@.push(ty),
    ensures
        ({
            let text = if introspect.minify {
                ty.minified@
            } else {
                ty.sdl@
            };
            let subscription = schema.subscription is Some && schema.subscription->0@ == ty.name@;
            let mutation = schema.mutation is Some && schema.mutation->0@ == ty.name@;
            let seen = !ty.built_in && !subscription && (mutation ==> introspect.allow_mutations
                || input.name@ == ty.name@);
            &&& seen ==> views(after@) == views(before@).push(text)
            &&& !seen ==> views(after@) == views(before@)
        }),
{
    law_kept_types_are_told_of_in_turn(
        introspect,
        schema,
        input.name@,
        less.directives@,
        less.types@,
        ty,
    );
}

/// Where only directive definitions were kept, one more adds its text at the end, unless it is
/// built in. Types come behind all of them.
pub proof fn law_answer_with_one_directive_more(
    introspect: Introspect,
    input: Input,
    schema: GraphqlSchema,
    less: ShakenSchema,
    more: ShakenSchema,
    directive: ShakenDirective,
    before: Vec<String>,
    after: Vec<String>,
)
    requires
        call_ensures(Introspect::execute, (&introspect, &input, &schema, &less), before),
        call_ensures(Introspect::execute, (&introspect, &input, &schema, &more), after),
        schema.types@.contains_key(input.name@),
        more.directives@ == less.directives@.push(directive),
        less.types@ == Seq::<ShakenType>::empty(),
        more.types@ == less.types@,
    ensures
        directive.built_in ==> views(after@) == views(before@),
        !directive.built_in ==> views(after@) == views(before@).push(directive.sdl@),
        less.directives@.len() == 0 ==> before@.len() == 0,
{
    law_kept_directives_are_told_of_in_turn(
        introspect,
        schema,
        input.name@,
        less.directives@,
        directive,
        less.types@,
    );
    assert(less.directives@.len() == 0 ==> less.directives@ =~= Seq::empty());
    assert(views(before@).len() == before@.len());
}

/// A type is written minified where that is switched on, else in the schema language.
pub proof fn law_text_of_a_type(introspect: Introspect, ty: ShakenType, r: String)
    requires
        call_ensures(Introspect::serialize, (&introspect, &ty), r),
    ensures
        introspect.minify ==> r@ == ty.minified@,
        !introspect.minify ==> r@ == ty.sdl@,
{
}

/// Mutations are allowed if and only if there is a root mutation type. The description is the one
/// that is given, else the default one.
pub proof fn law_new_tool(
    query: Option<String>,
    mutation: Option<String>,
    minify: bool,
    description: Option<String>,
    input_schema: Object,
    r: Introspect,
)
    requires
        call_ensures(Introspect::new, (query, mutation, minify, description, input_schema), r),
    ensures
        r.allow_mutations <==> mutation is Some,
        r.minify == minify,
        r.tool.name@ == "introspect"@,
        r.tool.description is Some,
        description is Some ==> r.tool.description->0@ == description->0@,
        r.tool.input_schema == input_schema,
        r.tool.output_schema is None,
        r.tool.annotations is None,
{
}

/// The default description explains the minified form where that is switched on. Else it tells to
/// start with the root types of the schema, or with "Query" and "Mutation" where there are none.
pub proof fn law_default_description(
    query: Option<&str>,
    mutation: Option<&str>,
    minify: bool,
    r: String,
)
    requires
        call_ensures(tool_description, (query, mutation, minify), r),
    ensures
        minify ==> r@
            == "Get GraphQL type information - T=type,I=input,E=enum,U=union,F=interface;s=String,i=Int,f=Float,b=Boolean,d=ID;@D=deprecated;!=required,[]=list,<>=implements;"@,
        !minify ==> r@
            == "Get information about a given GraphQL type defined in the schema. Instructions: Use this tool to explore the schema by providing specific type names. Start with the root query ("@
            + (if query is Some {
            query->0@
        } else {
            "Query"@
        }) + ") or mutation ("@ + (if mutation is Some {
            mutation->0@
        } else {
            "Mutation"@
        })
            + ") types to discover available fields. If the search tool is also available, use this tool first to get the fields, then use the search tool with relevant field return types and argument input types (ignore default GraphQL scalars) as search terms."@,
{
}

/// A depth of 0 stands for no limit, and any other for itself.
pub proof fn law_limit(input: Input, r: DepthLimit)
    requires
        call_ensures(Input::depth_limit, (&input,), r),
    ensures
        input.depth == 0 ==> r == DepthLimit::Unlimited,
        input.depth > 0 ==> r == DepthLimit::Limited(input.depth),
{
}

/// Without a depth, the type and what it leads to directly are told of.
pub proof fn law_depth_that_is_not_given(r: usize)
    requires
        call_ensures(default_depth, (), r),
    ensures
        r == 1,
{
}

} // verus!
