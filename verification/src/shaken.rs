//! What is left of a schema once everything that is not used has been shaken off.

use vstd::prelude::*;

verus! {

/// The kinds of types.
#[derive(Debug, Clone, Copy, PartialEq, Eq, Structural)]
pub enum TypeKind {
    Scalar,
    Object,
    Interface,
    Union,
    Enum,
    InputObject,
}

/// A type that was kept, with its texts.
#[derive(Debug)]
pub struct ShakenType {
    pub name: String,
    pub kind: TypeKind,
    pub built_in: bool,
    /// The definition in the schema language.
    pub sdl: String,
    /// The minified definition.
    pub minified: String,
}

/// A directive definition that was kept, with its text.
#[derive(Debug)]
pub struct ShakenDirective {
    pub built_in: bool,
    /// The definition in the schema language.
    pub sdl: String,
}

/// The types and directive definitions that were kept, in order.
#[derive(Debug)]
pub struct ShakenSchema {
    pub directives: Vec<ShakenDirective>,
    pub types: Vec<ShakenType>,
}

/// How far types are kept that a type leads to.
#[derive(Debug, Clone, Copy, PartialEq, Eq, Structural)]
pub enum DepthLimit {
    Unlimited,
    Limited(usize),
}

} // verus!
