//! GraphQL: type references and schemas.

use crate::string_map::StringMap;
use vstd::prelude::*;

verus! {

/// A reference to a GraphQL type.
#[derive(Debug)]
pub enum GraphqlType {
    /// `Foo`
    Named(String),
    /// `Foo!`
    NonNullNamed(String),
    /// `[..]`
    List(Box<GraphqlType>),
    /// `[..]!`
    NonNullList(Box<GraphqlType>),
}

/// What a type reference says.
pub enum TypeView {
    Named(Seq<char>),
    NonNullNamed(Seq<char>),
    List(Box<TypeView>),
    NonNullList(Box<TypeView>),
}

impl GraphqlType {
    /// What the reference says.
    pub open spec fn view(self) -> TypeView
        decreases self,
    {
        match self {
            GraphqlType::Named(name) => TypeView::Named(name@),
            GraphqlType::NonNullNamed(name) => TypeView::NonNullNamed(name@),
            GraphqlType::List(item) => TypeView::List(Box::new((*item).view())),
            GraphqlType::NonNullList(item) => TypeView::NonNullList(Box::new((*item).view())),
        }
    }

    /// How many list markers stand around the named type.
    pub open spec fn depth(self) -> nat
        decreases self,
    {
        match self {
            GraphqlType::Named(_) | GraphqlType::NonNullNamed(_) => 0,
            GraphqlType::List(item) | GraphqlType::NonNullList(item) => (*item).depth() + 1,
        }
    }

    /// Whether null is ruled out.
    pub fn is_non_null(&self) -> (r: bool)
        ensures
            r == self.view().non_null(),
    {
        match self {
            GraphqlType::NonNullNamed(_) | GraphqlType::NonNullList(_) => true,
            GraphqlType::Named(_) | GraphqlType::List(_) => false,
        }
    }

    /// Whether this is a list, nullable or not.
    pub fn is_list(&self) -> (r: bool)
        ensures
            r == self.view().list(),
    {
        match self {
            GraphqlType::List(_) | GraphqlType::NonNullList(_) => true,
            GraphqlType::Named(_) | GraphqlType::NonNullNamed(_) => false,
        }
    }

    /// The named type inside all list and non-null markers.
    pub fn inner_named_type(&self) -> (name: &String)
        ensures
            name@ == self.view().inner_name(),
        decreases self,
    {
        match self {
            GraphqlType::Named(name) | GraphqlType::NonNullNamed(name) => name,
            GraphqlType::List(item) | GraphqlType::NonNullList(item) => item.inner_named_type(),
        }
    }
}

impl TypeView {
    /// Whether null is ruled out.
    pub open spec fn non_null(self) -> bool {
        self is NonNullNamed || self is NonNullList
    }

    /// The type with null ruled out.
    pub open spec fn strict(self) -> TypeView {
        match self {
            TypeView::Named(name) => TypeView::NonNullNamed(name),
            TypeView::List(item) => TypeView::NonNullList(item),
            _ => self,
        }
    }

    /// Whether this is a list, nullable or not.
    pub open spec fn list(self) -> bool {
        self is List || self is NonNullList
    }

    /// The named type inside all list and non-null markers.
    pub open spec fn inner_name(self) -> Seq<char>
        decreases self,
    {
        match self {
            TypeView::Named(name) => name,
            TypeView::NonNullNamed(name) => name,
            TypeView::List(item) => (*item).inner_name(),
            TypeView::NonNullList(item) => (*item).inner_name(),
        }
    }
}

/// The marker at the outside alone says whether null is ruled out and whether this is a list,
/// and the name inside is the same under every marker.
pub proof fn law_markers_of_types(name: String, item: GraphqlType)
    ensures
        GraphqlType::Named(name).view() == TypeView::Named(name@),
        GraphqlType::NonNullNamed(name).view() == TypeView::NonNullNamed(name@),
        GraphqlType::List(Box::new(item)).view() == TypeView::List(Box::new(item.view())),
        GraphqlType::NonNullList(Box::new(item)).view() == TypeView::NonNullList(
            Box::new(item.view()),
        ),
        !GraphqlType::Named(name).view().non_null(),
        GraphqlType::NonNullNamed(name).view().non_null(),
        !GraphqlType::List(Box::new(item)).view().non_null(),
        GraphqlType::NonNullList(Box::new(item)).view().non_null(),
        !GraphqlType::Named(name).view().list(),
        !GraphqlType::NonNullNamed(name).view().list(),
        GraphqlType::List(Box::new(item)).view().list(),
        GraphqlType::NonNullList(Box::new(item)).view().list(),
        GraphqlType::Named(name).view().inner_name() == name@,
        GraphqlType::NonNullNamed(name).view().inner_name() == name@,
        GraphqlType::List(Box::new(item)).view().inner_name() == item.view().inner_name(),
        GraphqlType::NonNullList(Box::new(item)).view().inner_name() == item.view().inner_name(),
{
}

/// The three kinds of operations.
#[derive(Debug, Clone, Copy, PartialEq, Eq, Structural)]
pub enum OperationType {
    Query,
    Mutation,
    Subscription,
}

/// A value of an enum type.
#[derive(Debug)]
pub struct EnumValue {
    pub name: String,
    pub description: Option<String>,
}

/// A field of an input object type.
#[derive(Debug)]
pub struct InputField {
    pub name: String,
    pub description: Option<String>,
    pub ty: GraphqlType,
    pub has_default: bool,
}

impl InputField {
    /// Whether a value has to be given: the type rules null out and there is no
    /// default.
    pub open spec fn required(self) -> bool {
        self.ty.view().non_null() && !self.has_default
    }

    /// Whether a value has to be given.
    pub fn is_required(&self) -> (r: bool)
        ensures
            r == self.required(),
    {
        self.ty.is_non_null() && !self.has_default
    }
}

/// A field has to be given if and only if its type is non-null, a list or not, and it has no
/// default.
pub proof fn law_fields_that_have_to_be_given(field: InputField)
    ensures
        field.required() <==> match field.ty {
            GraphqlType::Named(_) => false,
            GraphqlType::List(_) => false,
            GraphqlType::NonNullNamed(_) => !field.has_default,
            GraphqlType::NonNullList(_) => !field.has_default,
        },
{
}

/// A field of an object type.
#[derive(Debug)]
pub struct FieldDefinition {
    pub name: String,
    pub description: Option<String>,
    pub ty: GraphqlType,
}

/// A scalar type.
#[derive(Debug)]
pub struct ScalarType {
    pub description: Option<String>,
}

/// An object type.
#[derive(Debug)]
pub struct ObjectType {
    pub fields: Vec<FieldDefinition>,
}

/// An enum type.
#[derive(Debug)]
pub struct EnumType {
    pub description: Option<String>,
    pub values: Vec<EnumValue>,
}

/// An input object type.
#[derive(Debug)]
pub struct InputObjectType {
    pub description: Option<String>,
    pub fields: Vec<InputField>,
}

/// What a schema says about a type.
#[derive(Debug)]
pub enum ExtendedType {
    Scalar(ScalarType),
    Object(ObjectType),
    Interface,
    Union,
    Enum(EnumType),
    InputObject(InputObjectType),
}

/// A GraphQL schema: its types by name, and the root types of the operations.
pub struct GraphqlSchema {
    pub types: StringMap<ExtendedType>,
    pub query: Option<String>,
    pub mutation: Option<String>,
    pub subscription: Option<String>,
}

impl GraphqlSchema {
    /// The name of the root type for a kind of operation.
    pub open spec fn root(self, operation_type: OperationType) -> Option<String> {
        match operation_type {
            OperationType::Query => self.query,
            OperationType::Mutation => self.mutation,
            OperationType::Subscription => self.subscription,
        }
    }

    /// The name of the root type for a kind of operation.
    pub fn root_operation(&self, operation_type: OperationType) -> (name: Option<&String>)
        ensures
            match name {
                Some(n) => self.root(operation_type) == Some(*n),
                None => self.root(operation_type) is None,
            },
    {
        match operation_type {
            OperationType::Query => self.query.as_ref(),
            OperationType::Mutation => self.mutation.as_ref(),
            OperationType::Subscription => self.subscription.as_ref(),
        }
    }
}

/// Each kind of operation has its own root type.
pub proof fn law_root_types(schema: GraphqlSchema)
    ensures
        schema.root(OperationType::Query) == schema.query,
        schema.root(OperationType::Mutation) == schema.mutation,
        schema.root(OperationType::Subscription) == schema.subscription,
{
}

} // verus!
