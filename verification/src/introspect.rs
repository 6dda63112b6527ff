//! The tool that tells of the types of a GraphQL schema.

use crate::graphql::{GraphqlSchema, OperationType};
use crate::json::Object;
use crate::shaken::{DepthLimit, ShakenDirective, ShakenSchema, ShakenType};
use crate::text::{self, same_text};
use crate::tool::Tool;
use vstd::prelude::*;

verus! {

/// The name of the tool to get GraphQL schema type information.
pub const INTROSPECT_TOOL_NAME: &'static str = "introspect";

/// A tool to get detailed information about specific types from the GraphQL schema.
#[derive(Debug)]
pub struct Introspect {
    pub allow_mutations: bool,
    pub minify: bool,
    pub tool: Tool,
}

/// Input for the introspect tool.
#[derive(Debug)]
pub struct Input {
    /// The name of the type to get information about.
    pub name: String,
    /// How far to recurse the type hierarchy. Use 0 for no limit. Defaults to 1.
    pub depth: usize,
}

impl Input {
    /// The limit that the depth stands for.
    pub open spec fn limit(self) -> DepthLimit {
        if self.depth > 0 {
            DepthLimit::Limited(self.depth)
        } else {
            DepthLimit::Unlimited
        }
    }

    /// How far the types are to be kept that the type leads to.
    pub fn depth_limit(&self) -> (limit: DepthLimit)
        ensures
            limit == self.limit(),
    {
        if self.depth > 0 {
            DepthLimit::Limited(self.depth)
        } else {
            DepthLimit::Unlimited
        }
    }
}

/// The description of the tool, with the names of the root types in it unless it
/// explains the minified form.
pub open spec fn description_text(query: Seq<char>, mutation: Seq<char>, minify: bool) -> Seq<char> {
    if minify {
        "Get GraphQL type information - T=type,I=input,E=enum,U=union,F=interface;s=String,i=Int,f=Float,b=Boolean,d=ID;@D=deprecated;!=required,[]=list,<>=implements;"@
    } else {
        "Get information about a given GraphQL type defined in the schema. Instructions: Use this tool to explore the schema by providing specific type names. Start with the root query ("@
            + query + ") or mutation ("@ + mutation
            + ") types to discover available fields. If the search tool is also available, use this tool first to get the fields, then use the search tool with relevant field return types and argument input types (ignore default GraphQL scalars) as search terms."@
    }
}

/// The text, or the given one where it is missing.
pub open spec fn text_or(s: Option<&str>, default: Seq<char>) -> Seq<char> {
    match s {
        Some(s) => s@,
        None => default,
    }
}

/// The default description of the tool.
pub fn tool_description(
    root_query_type: Option<&str>,
    root_mutation_type: Option<&str>,
    minify: bool,
) -> (description: String)
    ensures
        description@ == description_text(
            text_or(root_query_type, "Query"@),
            text_or(root_mutation_type, "Mutation"@),
            minify,
        ),
{
    if minify {
        return "Get GraphQL type information - T=type,I=input,E=enum,U=union,F=interface;s=String,i=Int,f=Float,b=Boolean,d=ID;@D=deprecated;!=required,[]=list,<>=implements;".to_owned();
    }
    let query = match root_query_type {
        Some(name) => name,
        None => "Query",
    };
    let mutation = match root_mutation_type {
        Some(name) => name,
        None => "Mutation",
    };
    let mut description = "Get information about a given GraphQL type defined in the schema. Instructions: Use this tool to explore the schema by providing specific type names. Start with the root query (".to_owned();
    description.append(query);
    description.append(") or mutation (");
    description.append(mutation);
    description.append(
        ") types to discover available fields. If the search tool is also available, use this tool first to get the fields, then use the search tool with relevant field return types and argument input types (ignore default GraphQL scalars) as search terms.",
    );
    description
}

/// The default depth to recurse the type hierarchy.
pub fn default_depth() -> (depth: usize)
    ensures
        depth == 1,
{
    1
}

/// The texts of the directive definitions that are not built in, in order.
pub open spec fn directive_texts(directives: Seq<ShakenDirective>) -> Seq<Seq<char>> {
    directives.filter(|directive: ShakenDirective| !directive.built_in).map_values(
        |directive: ShakenDirective| directive.sdl@,
    )
}

impl Clone for Introspect {
    fn clone(&self) -> (copy: Self)
        ensures
            copy.allow_mutations == self.allow_mutations,
            copy.minify == self.minify,
            copy.tool.same(self.tool),
    {
        Introspect {
            allow_mutations: self.allow_mutations,
            minify: self.minify,
            tool: self.tool.clone(),
        }
    }
}

impl Introspect {
    /// Whether a type is told of: it is not built in, it is not the root mutation
    /// type unless mutations are allowed or it was asked for, and it is not the root
    /// subscription type.
    pub open spec fn shows(
        self,
        schema: GraphqlSchema,
        asked: Seq<char>,
        ty: ShakenType,
    ) -> bool {
        &&& !ty.built_in
        &&& match schema.mutation {
            Some(root) => ty.name@ != root@ || asked == root@ || self.allow_mutations,
            None => true,
        }
        &&& match schema.subscription {
            Some(root) => ty.name@ != root@,
            None => true,
        }
    }

    /// The text of a type.
    pub open spec fn type_text(self, ty: ShakenType) -> Seq<char> {
        if self.minify {
            ty.minified@
        } else {
            ty.sdl@
        }
    }

    /// The texts of the types that are told of, in order.
    pub open spec fn type_texts(
        self,
        schema: GraphqlSchema,
        asked: Seq<char>,
        types: Seq<ShakenType>,
    ) -> Seq<Seq<char>> {
        types.filter(|ty: ShakenType| self.shows(schema, asked, ty)).map_values(
            |ty: ShakenType| self.type_text(ty),
        )
    }

    /// What the tool answers, of the directive definitions and types that were kept.
    pub open spec fn answer(
        self,
        schema: GraphqlSchema,
        asked: Seq<char>,
        directives: Seq<ShakenDirective>,
        types: Seq<ShakenType>,
    ) -> Seq<Seq<char>> {
        if schema.types@.contains_key(asked) {
            directive_texts(directives) + self.type_texts(schema, asked, types)
        } else {
            Seq::empty()
        }
    }

    /// The tool for a schema with the given root types. Without a description of its
    /// own it has the default one. Mutations are allowed if there is a root mutation
    /// type.
    pub fn new(
        root_query_type: Option<String>,
        root_mutation_type: Option<String>,
        minify: bool,
        description: Option<String>,
        input_schema: Object,
    ) -> (r: Self)
        ensures
            r.allow_mutations == root_mutation_type is Some,
            r.minify == minify,
            r.tool.name@ == INTROSPECT_TOOL_NAME@,
            r.tool.description is Some,
            r.tool.description->0@ == match description {
                Some(d) => d@,
                None => description_text(
                    match root_query_type {
                        Some(name) => name@,
                        None => "Query"@,
                    },
                    match root_mutation_type {
                        Some(name) => name@,
                        None => "Mutation"@,
                    },
                    minify,
                ),
            },
            r.tool.input_schema == input_schema,
            r.tool.output_schema is None,
            r.tool.annotations is None,
    {
        let text = match description {
            Some(d) => d,
            None => {
                let query = match &root_query_type {
                    Some(name) => Some(name.as_str()),
                    None => None,
                };
                let mutation = match &root_mutation_type {
                    Some(name) => Some(name.as_str()),
                    None => None,
                };
                tool_description(query, mutation, minify)
            },
        };
        Introspect {
            allow_mutations: root_mutation_type.is_some(),
            minify,
            tool: Tool {
                name: INTROSPECT_TOOL_NAME.to_owned(),
                description: Some(text),
                input_schema,
                output_schema: None,
                annotations: None,
            },
        }
    }

    /// Whether a type is told of.
    fn is_shown(&self, schema: &GraphqlSchema, asked: &str, ty: &ShakenType) -> (shown: bool)
        ensures
            shown == self.shows(*schema, asked@, *ty),
    {
        if ty.built_in {
            return false;
        }
        if let Some(root) = schema.root_operation(OperationType::Mutation) {
            if same_text(ty.name.as_str(), root.as_str()) && !same_text(asked, root.as_str())
                && !self.allow_mutations {
                return false;
            }
        }
        match schema.root_operation(OperationType::Subscription) {
            Some(root) => !same_text(ty.name.as_str(), root.as_str()),
            None => true,
        }
    }

    /// The text of a type: minified or in the schema language.
    pub fn serialize(&self, ty: &ShakenType) -> (r: String)
        ensures
            r@ == self.type_text(*ty),
    {
        if self.minify {
            ty.minified.clone()
        } else {
            ty.sdl.clone()
        }
    }

    /// What the tool answers: the directive definitions and types that were kept for
    /// the type that was asked for, and nothing where the schema has no such type.
    pub fn execute(&self, input: &Input, schema: &GraphqlSchema, shaken: &ShakenSchema) -> (r: Vec<
        String,
    >)
        ensures
            text::views(r@) == if schema.types@.contains_key(input.name@) {
                directive_texts(shaken.directives@) + self.type_texts(
                    *schema,
                    input.name@,
                    shaken.types@,
                )
            } else {
                Seq::empty()
            },
            text::views(r@) == self.answer(
                *schema,
                input.name@,
                shaken.directives@,
                shaken.types@,
            ),
            !schema.types@.contains_key(input.name@) ==> r@.len() == 0,
            schema.types@.contains_key(input.name@) ==> forall|i: int|
                0 <= i < shaken.types@.len() && is_visible(
                    *schema,
                    input.name@,
                    self.allow_mutations,
                    #[trigger] shaken.types@[i],
                ) ==> text::views(r@).contains(
                    if self.minify {
                        shaken.types@[i].minified@
                    } else {
                        shaken.types@[i].sdl@
                    },
                ),
    {
        let mut r: Vec<String> = Vec::new();
        if !schema.types.contains_key(input.name.as_str()) {
            assert(text::views(r@) =~= Seq::empty());
            return r;
        }
        let ghost directives = shaken.directives@;
        let n: usize = shaken.directives.len();
        proof {
            reveal(Seq::filter);
            assert(directive_texts(directives.take(0)) =~= Seq::empty());
        }
        for i in 0..n
            invariant
                n == directives.len(),
                directives == shaken.directives@,
                text::views(r@) =~= directive_texts(directives.take(i as int)),
        {
            let directive = &shaken.directives[i];
            let ghost before = r@;
            proof {
                reveal(Seq::filter);
                assert(directives.take(i + 1).drop_last() =~= directives.take(i as int));
                assert(directives.take(i + 1).last() == *directive);
            }
            if !directive.built_in {
                r.push(directive.sdl.clone());
                assert(text::views(r@) =~= text::views(before).push(directive.sdl@));
                assert(directive_texts(directives.take(i + 1)) =~= directive_texts(
                    directives.take(i as int),
                ).push(directive.sdl@));
            }
        }
        assert(directives.take(n as int) =~= directives);
        let ghost types = shaken.types@;
        let ghost name = input.name@;
        let ghost kept = directive_texts(directives);
        let m: usize = shaken.types.len();
        proof {
            reveal(Seq::filter);
            assert(self.type_texts(*schema, name, types.take(0)) =~= Seq::empty());
        }
        for i in 0..m
            invariant
                m == types.len(),
                types == shaken.types@,
                name == input.name@,
                text::views(r@) =~= kept + self.type_texts(*schema, name, types.take(i as int)),
        {
            let ty = &shaken.types[i];
            let ghost before = r@;
            proof {
                reveal(Seq::filter);
                assert(types.take(i + 1).drop_last() =~= types.take(i as int));
                assert(types.take(i + 1).last() == *ty);
            }
            if self.is_shown(schema, input.name.as_str(), ty) {
                r.push(self.serialize(ty));
                assert(text::views(r@) =~= text::views(before).push(self.type_text(*ty)));
                assert(self.type_texts(*schema, name, types.take(i + 1)) =~= self.type_texts(
                    *schema,
                    name,
                    types.take(i as int),
                ).push(self.type_text(*ty)));
            }
        }
        assert(types.take(m as int) =~= types);
        proof {
            assert(text::views(r@) =~= kept + self.type_texts(*schema, name, types));
            assert forall|i: int|
                0 <= i < types.len() && is_visible(
                    *schema,
                    name,
                    self.allow_mutations,
                    #[trigger] types[i],
                ) implies text::views(r@).contains(
                if self.minify {
                    types[i].minified@
                } else {
                    types[i].sdl@
                },
            ) by {
                lemma_told(*self, *schema, name, types, i);
                let texts = self.type_texts(*schema, name, types);
                let k = choose|k: int|
                    0 <= k < texts.len() && texts[k] == self.type_text(types[i]);
                assert(text::views(r@)[kept.len() + k] == texts[k]);
            }
        }
        r
    }
}

/// The type that was asked for is told of, even where it is the root mutation type and
/// mutations are not allowed, unless it is built in or the root subscription type.
pub proof fn law_asked_type_is_shown(introspect: Introspect, schema: GraphqlSchema, ty: ShakenType)
    requires
        !ty.built_in,
        match schema.subscription {
            Some(root) => ty.name@ != root@,
            None => true,
        },
    ensures
        introspect.shows(schema, ty.name@, ty),
{
}

/// The root mutation type is not told of where it was not asked for and mutations are not
/// allowed.
pub proof fn law_root_mutation_is_hidden(
    introspect: Introspect,
    schema: GraphqlSchema,
    asked: Seq<char>,
    ty: ShakenType,
)
    requires
        !introspect.allow_mutations,
        schema.mutation is Some,
        ty.name@ == schema.mutation->0@,
        asked != ty.name@,
    ensures
        !introspect.shows(schema, asked, ty),
{
}

/// Whether a type may be seen, whatever its kind: it is not built in, it is not the root
/// subscription type, and it is not the root mutation type unless mutations are allowed or that
/// type was asked for.
pub open spec fn is_visible(
    schema: GraphqlSchema,
    asked: Seq<char>,
    allow_mutations: bool,
    ty: ShakenType,
) -> bool {
    &&& !ty.built_in
    &&& schema.subscription is Some ==> schema.subscription->0@ != ty.name@
    &&& schema.mutation is Some && schema.mutation->0@ == ty.name@ ==> allow_mutations || asked
        == ty.name@
}

proof fn lemma_told(
    introspect: Introspect,
    schema: GraphqlSchema,
    asked: Seq<char>,
    types: Seq<ShakenType>,
    i: int,
)
    requires
        0 <= i < types.len(),
        is_visible(schema, asked, introspect.allow_mutations, types[i]),
    ensures
        introspect.type_texts(schema, asked, types).contains(introspect.type_text(types[i])),
    decreases types.len(),
{
    reveal(Seq::filter);
    let shown = |ty: ShakenType| introspect.shows(schema, asked, ty);
    let front = types.drop_last();
    let texts = introspect.type_texts(schema, asked, types);
    let before = introspect.type_texts(schema, asked, front);
    assert(introspect.shows(schema, asked, types[i]));
    if i < front.len() {
        assert(front[i] == types[i]);
        lemma_told(introspect, schema, asked, front, i);
        let k = choose|k: int|
            0 <= k < before.len() && before[k] == introspect.type_text(types[i]);
        assert(texts[k] == before[k]);
    } else {
        assert(texts[before.len() as int] == introspect.type_text(types[i]));
    }
}

/// Nothing is answered of a type that the schema lacks.
pub proof fn law_unknown_types_are_not_answered(
    introspect: Introspect,
    schema: GraphqlSchema,
    asked: Seq<char>,
    directives: Seq<ShakenDirective>,
    types: Seq<ShakenType>,
)
    requires
        !schema.types@.contains_key(asked),
    ensures
        introspect.answer(schema, asked, directives, types) == Seq::<Seq<char>>::empty(),
{
}

/// Each type that was kept and may be seen is told of, at the end of the answer, minified or in
/// the schema language; any other adds nothing.
pub proof fn law_kept_types_are_told_of_in_turn(
    introspect: Introspect,
    schema: GraphqlSchema,
    asked: Seq<char>,
    directives: Seq<ShakenDirective>,
    types: Seq<ShakenType>,
    ty: ShakenType,
)
    requires
        schema.types@.contains_key(asked),
    ensures
        introspect.answer(schema, asked, directives, types.push(ty)) == if is_visible(
            schema,
            asked,
            introspect.allow_mutations,
            ty,
        ) {
            introspect.answer(schema, asked, directives, types).push(
                if introspect.minify {
                    ty.minified@
                } else {
                    ty.sdl@
                },
            )
        } else {
            introspect.answer(schema, asked, directives, types)
        },
{
    reveal(Seq::filter);
    let shown = |ty: ShakenType| introspect.shows(schema, asked, ty);
    assert(types.push(ty).drop_last() =~= types);
    assert(types.push(ty).last() == ty);
    let before = introspect.type_texts(schema, asked, types);
    if is_visible(schema, asked, introspect.allow_mutations, ty) {
        assert(introspect.shows(schema, asked, ty));
        assert(introspect.type_texts(schema, asked, types.push(ty)) =~= before.push(
            introspect.type_text(ty),
        ));
        assert(directive_texts(directives) + before.push(introspect.type_text(ty)) =~= (
        directive_texts(directives) + before).push(introspect.type_text(ty)));
    } else {
        assert(!introspect.shows(schema, asked, ty));
        assert(introspect.type_texts(schema, asked, types.push(ty)) =~= before);
    }
}

/// Each directive definition that was kept and is not built in is told of, before the types.
pub proof fn law_kept_directives_are_told_of_in_turn(
    introspect: Introspect,
    schema: GraphqlSchema,
    asked: Seq<char>,
    directives: Seq<ShakenDirective>,
    directive: ShakenDirective,
    types: Seq<ShakenType>,
)
    requires
        schema.types@.contains_key(asked),
    ensures
        introspect.answer(schema, asked, Seq::empty(), Seq::empty()) == Seq::<Seq<char>>::empty(),
        introspect.answer(schema, asked, directives.push(directive), Seq::empty()) == if
            directive.built_in {
            introspect.answer(schema, asked, directives, Seq::empty())
        } else {
            introspect.answer(schema, asked, directives, Seq::empty()).push(directive.sdl@)
        },
        introspect.answer(schema, asked, directives, types) == introspect.answer(
            schema,
            asked,
            directives,
            Seq::empty(),
        ) + introspect.answer(schema, asked, Seq::empty(), types),
{
    reveal(Seq::filter);
    let none: Seq<ShakenType> = Seq::empty();
    let no_texts: Seq<Seq<char>> = Seq::empty();
    assert(introspect.type_texts(schema, asked, none) =~= no_texts);
    assert(directive_texts(Seq::empty()) =~= no_texts);
    assert(directives.push(directive).drop_last() =~= directives);
    assert(directives.push(directive).last() == directive);
    let before = directive_texts(directives);
    assert(directive_texts(directives.push(directive)) =~= if directive.built_in {
        before
    } else {
        before.push(directive.sdl@)
    });
    assert(before + no_texts =~= before);
    let texts = introspect.type_texts(schema, asked, types);
    assert(no_texts + texts =~= texts);
    assert(before.push(directive.sdl@) + no_texts =~= (before + no_texts).push(directive.sdl@));
}

/// A depth of 0 stands for no limit, and any other for itself.
pub proof fn law_depth(input: Input)
    ensures
        input.depth == 0 ==> input.limit() == DepthLimit::Unlimited,
        input.depth != 0 ==> input.limit() == DepthLimit::Limited(input.depth),
{
}

/// The description names the root types of queries and mutations, each at its place, unless it
/// explains the minified form: that is the same for every schema.
pub proof fn law_description_names_the_root_types(
    query: Seq<char>,
    mutation: Seq<char>,
    other_query: Seq<char>,
    other_mutation: Seq<char>,
)
    ensures
        description_text(query, mutation, true) == description_text(
            other_query,
            other_mutation,
            true,
        ),
        exists|before: Seq<char>, after: Seq<char>|
            description_text(query, mutation, false) == #[trigger] (before + query
                + ") or mutation ("@ + mutation + after) && description_text(
                other_query,
                other_mutation,
                false,
            ) == before + other_query + ") or mutation ("@ + other_mutation + after,
{
    let before =
        "Get information about a given GraphQL type defined in the schema. Instructions: Use this tool to explore the schema by providing specific type names. Start with the root query ("@;
    let after =
        ") types to discover available fields. If the search tool is also available, use this tool first to get the fields, then use the search tool with relevant field return types and argument input types (ignore default GraphQL scalars) as search terms."@;
    assert(description_text(query, mutation, false) == before + query + ") or mutation ("@
        + mutation + after);
}

} // verus!
