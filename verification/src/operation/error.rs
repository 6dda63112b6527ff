//! What can go wrong when an operation becomes a tool.

use crate::document::{diagnostic_path, diagnostic_source};
use apollo_compiler::ast::Document;
use apollo_compiler::validation::WithErrors;
use crate::text::text_of;
use vstd::prelude::*;

verus! {

/// What can go wrong when an operation becomes a tool.
#[derive(Debug)]
pub enum OperationError {
    /// The source text is not a GraphQL document.
    GraphQLDocument(Box<WithErrors<Document>>),
    /// The document holds no operation.
    NoOperations { source_path: Option<String> },
    /// The document holds more than one operation.
    TooManyOperations { source_path: Option<String>, count: usize },
    /// The operation has no name.
    MissingName { source_path: Option<String>, operation: String },
    /// Something that should not happen.
    Internal(String),
    /// JSON could not be written.
    Json(serde_json::Error),
}

/// What an error says.
pub enum OperationErrorView {
    /// The path and the source text that the diagnostics tell of.
    GraphQLDocument(Seq<char>, Seq<char>),
    NoOperations(Option<Seq<char>>),
    TooManyOperations(Option<Seq<char>>, int),
    MissingName(Option<Seq<char>>, Seq<char>),
    Internal(Seq<char>),
    Json(serde_json::Error),
}

impl View for OperationError {
    type V = OperationErrorView;

    open spec fn view(&self) -> OperationErrorView {
        match self {
            OperationError::GraphQLDocument(errors) => OperationErrorView::GraphQLDocument(
                diagnostic_path(**errors),
                diagnostic_source(**errors),
            ),
            OperationError::NoOperations { source_path } => OperationErrorView::NoOperations(
                text_of(*source_path),
            ),
            OperationError::TooManyOperations {
                source_path,
                count,
            } => OperationErrorView::TooManyOperations(text_of(*source_path), *count as int),
            OperationError::MissingName {
                source_path,
                operation,
            } => OperationErrorView::MissingName(text_of(*source_path), operation@),
            OperationError::Internal(message) => OperationErrorView::Internal(message@),
            OperationError::Json(error) => OperationErrorView::Json(*error),
        }
    }
}

/// An error says what its parts say.
pub proof fn law_what_errors_say(path: Option<String>, count: usize, text: String)
    ensures
        (OperationError::NoOperations { source_path: path })@ == OperationErrorView::NoOperations(
            text_of(path),
        ),
        (OperationError::TooManyOperations { source_path: path, count })@
            == OperationErrorView::TooManyOperations(text_of(path), count as int),
        (OperationError::MissingName { source_path: path, operation: text })@
            == OperationErrorView::MissingName(text_of(path), text@),
        (OperationError::Internal(text))@ == OperationErrorView::Internal(text@),
        path is None ==> text_of(path) is None,
        path is Some ==> text_of(path) == Some(path->0@),
{
}

} // verus!
