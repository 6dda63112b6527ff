//! Executable GraphQL documents: the operation that a document holds, as far as a
//! tool is made from it.

use crate::graphql::{GraphqlType, OperationType, TypeView};
use crate::text::{byte_len, text_of};
use apollo_compiler::ast;
use apollo_compiler::ast::Definition as Item;
use vstd::prelude::*;

verus! {

/// A parsed document of `apollo_compiler`. It is opaque here; [`definitions_of`] names
/// what it holds.
#[verifier::external_type_specification]
#[verifier::external_body]
pub struct ExDocument(apollo_compiler::ast::Document);

/// A parsed operation of `apollo_compiler`. It is opaque here; [`operation_of`] names
/// what it holds.
#[verifier::external_type_specification]
#[verifier::external_body]
pub struct ExOperationDefinition(apollo_compiler::ast::OperationDefinition);

/// A type reference of `apollo_compiler`. It is opaque here; [`type_of`] names what it
/// says.
#[verifier::external_type_specification]
#[verifier::external_body]
pub struct ExType(apollo_compiler::ast::Type);

/// What `apollo_compiler` returns where it found errors.
#[verifier::external_type_specification]
#[verifier::external_body]
#[verifier::reject_recursive_types(T)]
pub struct ExWithErrors<T>(apollo_compiler::validation::WithErrors<T>);

/// Where something stands in a source text: the byte offsets of its start and end.
#[derive(Debug, Clone, Copy, PartialEq, Eq, Structural)]
pub struct Span {
    pub start: usize,
    pub end: usize,
}

/// A name and where it stands.
#[derive(Debug)]
pub struct Name {
    pub text: String,
    pub span: Option<Span>,
}

/// A variable of an operation.
#[derive(Debug)]
pub struct Variable {
    pub name: String,
    pub ty: GraphqlType,
    pub span: Option<Span>,
}

/// An operation.
#[derive(Debug)]
pub struct OperationDef {
    pub operation_type: OperationType,
    pub name: Option<Name>,
    pub variables: Vec<Variable>,
    /// The selections at the top: the name of each field, nothing for a fragment.
    pub selections: Vec<Option<String>>,
    /// The operation in the query language, on one line.
    pub text: String,
}

/// What a definition is.
#[derive(Debug)]
pub enum DefinitionKind {
    Operation(OperationDef),
    Fragment,
    Other,
}

/// A definition of a document and where it stands.
#[derive(Debug)]
pub struct Definition {
    pub kind: DefinitionKind,
    pub span: Option<Span>,
}

/// What a name says.
pub struct NameView {
    pub text: Seq<char>,
    pub span: Option<Span>,
}

/// What a variable says.
pub struct VariableView {
    pub name: Seq<char>,
    pub ty: TypeView,
    pub span: Option<Span>,
}

/// What an operation says.
pub struct OperationView {
    pub operation_type: OperationType,
    pub name: Option<NameView>,
    pub variables: Seq<VariableView>,
    pub selections: Seq<Option<Seq<char>>>,
    pub text: Seq<char>,
}

/// What a definition says.
pub enum DefinitionView {
    Operation(OperationView, Option<Span>),
    Fragment(Option<Span>),
    Other(Option<Span>),
}

impl View for Name {
    type V = NameView;

    open spec fn view(&self) -> NameView {
        NameView { text: self.text@, span: self.span }
    }
}

impl View for Variable {
    type V = VariableView;

    open spec fn view(&self) -> VariableView {
        VariableView { name: self.name@, ty: self.ty.view(), span: self.span }
    }
}

/// What the variables say.
pub open spec fn variable_views(variables: Seq<Variable>) -> Seq<VariableView> {
    variables.map_values(|variable: Variable| variable@)
}

/// What the selections say.
pub open spec fn selection_views(selections: Seq<Option<String>>) -> Seq<Option<Seq<char>>> {
    selections.map_values(|selection: Option<String>| text_of(selection))
}

impl View for OperationDef {
    type V = OperationView;

    open spec fn view(&self) -> OperationView {
        OperationView {
            operation_type: self.operation_type,
            name: match self.name {
                Some(name) => Some(name@),
                None => None,
            },
            variables: variable_views(self.variables@),
            selections: selection_views(self.selections@),
            text: self.text@,
        }
    }
}

impl View for Definition {
    type V = DefinitionView;

    open spec fn view(&self) -> DefinitionView {
        match self.kind {
            DefinitionKind::Operation(operation) => DefinitionView::Operation(
                operation@,
                self.span,
            ),
            DefinitionKind::Fragment => DefinitionView::Fragment(self.span),
            DefinitionKind::Other => DefinitionView::Other(self.span),
        }
    }
}

/// What the definitions say.
pub open spec fn definition_views(definitions: Seq<Definition>) -> Seq<DefinitionView> {
    definitions.map_values(|definition: Definition| definition@)
}

impl DefinitionView {
    /// Where the definition stands.
    pub open spec fn span(self) -> Option<Span> {
        match self {
            DefinitionView::Operation(_, span) => span,
            DefinitionView::Fragment(span) => span,
            DefinitionView::Other(span) => span,
        }
    }
}

/// The definitions that a parsed document holds.
pub uninterp spec fn definitions_of(document: apollo_compiler::ast::Document) -> Seq<
    DefinitionView,
>;

/// What a parsed operation says.
pub uninterp spec fn operation_of(
    operation: apollo_compiler::ast::OperationDefinition,
) -> OperationView;

/// What a parsed type reference says.
pub uninterp spec fn type_of(ty: apollo_compiler::ast::Type) -> TypeView;

/// The definitions of a source text, where it is syntactically valid.
pub uninterp spec fn parsed(source: Seq<char>) -> Option<Seq<DefinitionView>>;

/// The path under which diagnostics tell of the source text.
pub uninterp spec fn diagnostic_path(
    errors: apollo_compiler::validation::WithErrors<apollo_compiler::ast::Document>,
) -> Seq<char>;

/// The source text that diagnostics tell of.
pub uninterp spec fn diagnostic_source(
    errors: apollo_compiler::validation::WithErrors<apollo_compiler::ast::Document>,
) -> Seq<char>;

/// The most bytes of a source text: `apollo_compiler` keeps offsets in 32 bits.
pub const SOURCE_LIMIT: usize = 0xffff_0000;

/// `apollo_compiler::parser::Parser::parse_ast`. Trusted: whether it succeeds, and what
/// the document then holds, depends on the source text alone; diagnostics tell of that text
/// under that path.
#[verifier::external_body]
pub(crate) fn parse_ast(source: &str, path: String) -> (r: Result<
    ast::Document,
    apollo_compiler::validation::WithErrors<ast::Document>,
>)
    requires
        byte_len(source@) <= SOURCE_LIMIT,
    ensures
        match r {
            Ok(document) => parsed(source@) == Some(definitions_of(document)),
            Err(errors) => parsed(source@) is None && diagnostic_path(errors) == path@
                && diagnostic_source(errors) == source@,
        },
{
    apollo_compiler::parser::Parser::new().parse_ast(source, path)
}

/// A definition of `apollo_compiler`, told apart.
pub enum DefinitionRef<'a> {
    Operation(&'a ast::OperationDefinition),
    Fragment,
    Other,
}

/// What a definition of `apollo_compiler` says, with its place.
pub open spec fn ref_view(definition: DefinitionRef<'_>, span: Option<Span>) -> DefinitionView {
    match definition {
        DefinitionRef::Operation(operation) => DefinitionView::Operation(
            operation_of(*operation),
            span,
        ),
        DefinitionRef::Fragment => DefinitionView::Fragment(span),
        DefinitionRef::Other => DefinitionView::Other(span),
    }
}

/// Hands out the `definitions` of a document, operations and fragments told apart from the
/// definitions and extensions of a type system. Trusted: these are the document's definitions,
/// in order.
#[verifier::external_body]
fn definition_refs(document: &ast::Document) -> (r: Vec<DefinitionRef<'_>>)
    ensures
        r@.len() == definitions_of(*document).len(),
        forall|i: int|
            0 <= i < r@.len() ==> ref_view(
                #[trigger] r@[i],
                definitions_of(*document)[i].span(),
            ) == definitions_of(*document)[i],
{
    document.definitions.iter().map(|definition| match definition {
        Item::OperationDefinition(node) => DefinitionRef::Operation(node),
        Item::FragmentDefinition(_) => DefinitionRef::Fragment,
        Item::DirectiveDefinition(_) | Item::SchemaDefinition(_) => DefinitionRef::Other,
        Item::ScalarTypeDefinition(_) | Item::ObjectTypeDefinition(_) => DefinitionRef::Other,
        Item::InterfaceTypeDefinition(_) | Item::UnionTypeDefinition(_) => DefinitionRef::Other,
        Item::EnumTypeDefinition(_) | Item::InputObjectTypeDefinition(_) => DefinitionRef::Other,
        Item::SchemaExtension(_) | Item::ScalarTypeExtension(_) => DefinitionRef::Other,
        Item::ObjectTypeExtension(_) | Item::InterfaceTypeExtension(_) => DefinitionRef::Other,
        Item::UnionTypeExtension(_) | Item::EnumTypeExtension(_) => DefinitionRef::Other,
        Item::InputObjectTypeExtension(_) => DefinitionRef::Other,
    }).collect()
}

/// Hands out the `location` of each definition of a document. Trusted: there is one entry for
/// each definition, in order.
#[verifier::external_body]
fn definition_spans(document: &ast::Document) -> (r: Vec<Option<Span>>)
    ensures
        r@ == definitions_of(*document).map_values(|definition: DefinitionView| definition.span()),
{
    document.definitions.iter().map(|definition| {
        let span = definition.location();
        span.map(|span| Span { start: span.offset(), end: span.end_offset() })
    }).collect()
}

/// The `operation_type` of an operation. Trusted: the variants stand for each other.
#[verifier::external_body]
fn operation_type_of(operation: &ast::OperationDefinition) -> (r: OperationType)
    ensures
        r == operation_of(*operation).operation_type,
{
    match operation.operation_type {
        ast::OperationType::Query => OperationType::Query,
        ast::OperationType::Mutation => OperationType::Mutation,
        ast::OperationType::Subscription => OperationType::Subscription,
    }
}

/// The `name` of an operation, with its `location`. Trusted: it is the operation's.
#[verifier::external_body]
fn name_of(operation: &ast::OperationDefinition) -> (r: Option<Name>)
    ensures
        operation_of(*operation).name == match r {
            Some(name) => Some(name@),
            None => None,
        },
{
    operation.name.as_ref().map(|name| {
        let span = name.location();
        let span = span.map(|span| Span { start: span.offset(), end: span.end_offset() });
        Name { text: name.to_string(), span }
    })
}

/// What a variable of `apollo_compiler` says.
pub open spec fn variable_ref_view(variable: (String, &ast::Type, Option<Span>)) -> VariableView {
    VariableView { name: variable.0@, ty: type_of(*variable.1), span: variable.2 }
}

/// Hands out the `variables` of an operation: name, type and `location`. Trusted: these
/// are the operation's variables, in order.
#[verifier::external_body]
fn variable_refs(operation: &ast::OperationDefinition) -> (r: Vec<
    (String, &ast::Type, Option<Span>),
>)
    ensures
        r@.map_values(|v: (String, &ast::Type, Option<Span>)| variable_ref_view(v))
            == operation_of(*operation).variables,
{
    operation.variables.iter().map(|variable| {
        let span = variable.location();
        let span = span.map(|span| Span { start: span.offset(), end: span.end_offset() });
        (variable.name.to_string(), variable.ty.as_ref(), span)
    }).collect()
}

/// Hands out the `selection_set` of an operation: the name of each field. Trusted: there
/// is one entry for each selection, in order, and the fields are told apart from the
/// fragments.
#[verifier::external_body]
fn selections_of(operation: &ast::OperationDefinition) -> (r: Vec<Option<String>>)
    ensures
        selection_views(r@) == operation_of(*operation).selections,
{
    operation.selection_set.iter().map(|selection| match selection {
        ast::Selection::Field(field) => Some(field.name.to_string()),
        ast::Selection::FragmentSpread(_) => None,
        ast::Selection::InlineFragment(_) => None,
    }).collect()
}

/// `apollo_compiler::ast::OperationDefinition::serialize`, without indentation. Trusted:
/// the text depends on the operation alone.
#[verifier::external_body]
fn operation_text(operation: &ast::OperationDefinition) -> (r: String)
    ensures
        r@ == operation_of(*operation).text,
{
    operation.serialize().no_indent().to_string()
}

/// A type reference of `apollo_compiler`, taken apart.
pub enum TypeRef<'a> {
    Named(String),
    NonNullNamed(String),
    List(&'a ast::Type),
    NonNullList(&'a ast::Type),
}

impl<'a> TypeRef<'a> {
    /// What the reference says.
    pub open spec fn view(self) -> TypeView {
        match self {
            TypeRef::Named(name) => TypeView::Named(name@),
            TypeRef::NonNullNamed(name) => TypeView::NonNullNamed(name@),
            TypeRef::List(item) => TypeView::List(Box::new(type_of(*item))),
            TypeRef::NonNullList(item) => TypeView::NonNullList(Box::new(type_of(*item))),
        }
    }
}

/// Tells the variants of `apollo_compiler::ast::Type` apart. Trusted: nothing of the
/// type is lost or changed.
#[verifier::external_body]
fn type_ref(ty: &ast::Type) -> (r: TypeRef<'_>)
    ensures
        type_of(*ty) == r.view(),
{
    match ty {
        ast::Type::Named(name) => TypeRef::Named(name.to_string()),
        ast::Type::NonNullNamed(name) => TypeRef::NonNullNamed(name.to_string()),
        ast::Type::List(item) => TypeRef::List(item),
        ast::Type::NonNullList(item) => TypeRef::NonNullList(item),
    }
}

/// The type that a parsed type reference says.
pub fn type_from_ast(ty: &ast::Type) -> (r: GraphqlType)
    ensures
        r.view() == type_of(*ty),
    decreases type_of(*ty),
{
    match type_ref(ty) {
        TypeRef::Named(name) => GraphqlType::Named(name),
        TypeRef::NonNullNamed(name) => GraphqlType::NonNullNamed(name),
        TypeRef::List(item) => {
            assert(decreases_to!(type_of(*ty) => *type_of(*ty)->List_0));
            GraphqlType::List(Box::new(type_from_ast(item)))
        },
        TypeRef::NonNullList(item) => {
            assert(decreases_to!(type_of(*ty) => *type_of(*ty)->NonNullList_0));
            GraphqlType::NonNullList(Box::new(type_from_ast(item)))
        },
    }
}

/// The operation that a parsed operation says.
pub fn operation_from_ast(operation: &ast::OperationDefinition) -> (r: OperationDef)
    ensures
        r@ == operation_of(*operation),
{
    let refs = variable_refs(operation);
    let ghost all = operation_of(*operation).variables;
    let mut variables: Vec<Variable> = Vec::new();
    let n: usize = refs.len();
    for i in 0..n
        invariant
            n == refs@.len(),
            all == refs@.map_values(|v: (String, &ast::Type, Option<Span>)| variable_ref_view(v)),
            variable_views(variables@) =~= all.take(i as int),
    {
        let ghost before = variables@;
        let variable = Variable {
            name: refs[i].0.clone(),
            ty: type_from_ast(refs[i].1),
            span: refs[i].2,
        };
        assert(variable@ == all[i as int]);
        variables.push(variable);
        assert(variable_views(variables@) =~= variable_views(before).push(all[i as int]));
    }
    assert(all.take(n as int) =~= all);
    OperationDef {
        operation_type: operation_type_of(operation),
        name: name_of(operation),
        variables,
        selections: selections_of(operation),
        text: operation_text(operation),
    }
}

/// The definitions of a parsed document.
pub fn definitions(document: &ast::Document) -> (r: Vec<Definition>)
    ensures
        definition_views(r@) == definitions_of(*document),
{
    let refs = definition_refs(document);
    let spans = definition_spans(document);
    let ghost all = definitions_of(*document);
    let mut r: Vec<Definition> = Vec::new();
    let n: usize = refs.len();
    for i in 0..n
        invariant
            n == refs@.len(),
            n == all.len(),
            n == spans@.len(),
            forall|j: int| 0 <= j < n ==> ref_view(#[trigger] refs@[j], all[j].span()) == all[j],
            forall|j: int| 0 <= j < n ==> #[trigger] spans@[j] == all[j].span(),
            definition_views(r@) =~= all.take(i as int),
    {
        let ghost before = r@;
        let kind = match &refs[i] {
            DefinitionRef::Operation(operation) => DefinitionKind::Operation(
                operation_from_ast(operation),
            ),
            DefinitionRef::Fragment => DefinitionKind::Fragment,
            DefinitionRef::Other => DefinitionKind::Other,
        };
        let definition = Definition { kind, span: spans[i] };
        assert(definition@ == all[i as int]);
        r.push(definition);
        assert(definition_views(r@) =~= definition_views(before).push(all[i as int]));
    }
    assert(all.take(n as int) =~= all);
    r
}

/// An operation says what its parts say, with the variables and the selections in order.
pub proof fn law_what_an_operation_says(operation: OperationDef, i: int)
    ensures
        operation@.operation_type == operation.operation_type,
        operation@.text == operation.text@,
        operation@.name is Some <==> operation.name is Some,
        operation.name is Some ==> operation@.name->0.text == operation.name->0.text@
            && operation@.name->0.span == operation.name->0.span,
        operation@.variables.len() == operation.variables@.len(),
        0 <= i < operation.variables@.len() ==> {
            &&& operation@.variables[i].name == operation.variables@[i].name@
            &&& operation@.variables[i].ty == operation.variables@[i].ty.view()
            &&& operation@.variables[i].span == operation.variables@[i].span
        },
        operation@.selections.len() == operation.selections@.len(),
        0 <= i < operation.selections@.len() ==> operation@.selections[i] == text_of(
            operation.selections@[i],
        ),
{
}

/// A definition says what it is and where it stands, and definitions say it in order.
pub proof fn law_what_definitions_say(definitions: Seq<Definition>, i: int)
    requires
        0 <= i < definitions.len(),
    ensures
        definition_views(definitions).len() == definitions.len(),
        definition_views(definitions)[i] == match definitions[i].kind {
            DefinitionKind::Operation(operation) => DefinitionView::Operation(
                operation@,
                definitions[i].span,
            ),
            DefinitionKind::Fragment => DefinitionView::Fragment(definitions[i].span),
            DefinitionKind::Other => DefinitionView::Other(definitions[i].span),
        },
        definition_views(definitions)[i].span() == definitions[i].span,
{
}

} // verus!
