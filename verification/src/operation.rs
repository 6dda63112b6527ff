//! GraphQL operations as tools.

pub mod comments;
pub mod description;
pub mod error;
pub mod execute;
pub mod headers;
pub mod input_schema;
pub mod load;
pub mod loaded;
pub mod select;
pub mod warnings;

use crate::json::{self, Object};
use crate::operation::headers::{clone_headers, own_headers};
use crate::shaken::ShakenType;
use crate::string_map::StringMap;
use crate::text::{text_of, views};
use crate::tool::Tool;
use http::{HeaderMap, HeaderValue};
use serde_json::Value;
use vstd::prelude::*;

verus! {

/// An operation as it was loaded: its document, and what goes with its requests.
#[derive(Debug)]
pub struct RawOperation {
    pub source_text: String,
    pub headers: Option<HeaderMap<HeaderValue>>,
    /// Values of variables that are not left to the caller.
    pub variables: Option<Object>,
    pub source_path: Option<String>,
}

/// Which mutations become tools.
#[derive(Debug, Clone, Copy, PartialEq, Eq, Structural)]
pub enum MutationMode {
    Never,
    Explicit,
    All,
}

/// Hints that an operator sets for a tool.
#[derive(Debug, Clone, Default)]
pub struct AnnotationOverrides {
    pub title: Option<String>,
    pub read_only_hint: Option<bool>,
    pub destructive_hint: Option<bool>,
    pub idempotent_hint: Option<bool>,
    pub open_world_hint: Option<bool>,
}

/// The paths of the fields that are marked private.
#[derive(Debug)]
pub struct PrivateFieldTree {
    pub paths: Vec<Vec<String>>,
}

impl View for PrivateFieldTree {
    type V = Seq<Seq<Seq<char>>>;

    open spec fn view(&self) -> Seq<Seq<Seq<char>>> {
        self.paths@.map_values(|path: Vec<String>| views(path@))
    }
}

impl PrivateFieldTree {
    /// Whether there are private fields.
    pub fn has_private_fields(&self) -> (r: bool)
        ensures
            r == (self@.len() > 0),
    {
        self.paths.len() > 0
    }
}

impl Clone for PrivateFieldTree {
    fn clone(&self) -> (r: PrivateFieldTree)
        ensures
            r@ == self@,
    {
        let mut paths: Vec<Vec<String>> = Vec::new();
        let n: usize = self.paths.len();
        for i in 0..n
            invariant
                n == self.paths@.len(),
                paths@.len() == i,
                forall|j: int| 0 <= j < i ==> views(#[trigger] paths@[j]@) == self@[j],
        {
            let path = &self.paths[i];
            let mut names: Vec<String> = Vec::new();
            let m: usize = path.len();
            for k in 0..m
                invariant
                    m == path@.len(),
                    names@.len() == k,
                    forall|j: int| 0 <= j < k ==> (#[trigger] names@[j])@ == path@[j]@,
            {
                names.push(path[k].clone());
            }
            assert(views(names@) =~= views(path@));
            paths.push(names);
        }
        let r = PrivateFieldTree { paths };
        assert(r@ =~= self@);
        r
    }
}

/// What a tree of private fields says.
pub open spec fn tree_view(tree: Option<PrivateFieldTree>) -> Option<Seq<Seq<Seq<char>>>> {
    match tree {
        Some(tree) => Some(tree@),
        None => None,
    }
}

/// What the schema and the document say of an operation.
#[derive(Debug)]
pub struct Analysis {
    /// The descriptions of the arguments that each variable is used for.
    pub argument_descriptions: StringMap<Vec<String>>,
    /// The types that the operation uses.
    pub shaken_types: Vec<ShakenType>,
    /// The fields that are marked private.
    pub private_fields: PrivateFieldTree,
    /// The document without the marks of private fields.
    pub stripped_source_text: String,
    /// The JSON Schema of the response, without private fields.
    pub selection_schema: Option<Value>,
}

/// A syntactically parsed, named GraphQL operation exposed as a tool.
///
/// Construction derives model-facing metadata from the configured schema, but it does not
/// validate the executable document against that schema. The upstream GraphQL service
/// performs execution-time GraphQL validation.
#[derive(Debug)]
pub struct Operation {
    pub tool: Tool,
    pub inner: RawOperation,
    pub operation_name: String,
    /// Query text without the marks of private fields, sent downstream instead of the source
    /// text. `None` when the operation has no private fields.
    pub stripped_source_text: Option<String>,
    /// The fields marked private, used for response filtering. `None` when the operation has
    /// no private fields.
    pub private_fields: Option<PrivateFieldTree>,
}

impl RawOperation {
    /// Whether two operations were loaded with the same.
    pub open spec fn same(self, other: RawOperation) -> bool {
        &&& self.source_text@ == other.source_text@
        &&& own_headers(self.headers) == own_headers(other.headers)
        &&& json::object_entries(self.variables) == json::object_entries(other.variables)
        &&& text_of(self.source_path) == text_of(other.source_path)
    }
}

impl Clone for RawOperation {
    fn clone(&self) -> (copy: Self)
        ensures
            copy.same(*self),
    {
        RawOperation {
            source_text: self.source_text.clone(),
            headers: match &self.headers {
                Some(headers) => Some(clone_headers(headers)),
                None => None,
            },
            variables: match &self.variables {
                Some(variables) => Some(json::clone_object(variables)),
                None => None,
            },
            source_path: match &self.source_path {
                Some(path) => Some(path.clone()),
                None => None,
            },
        }
    }
}

impl Clone for Operation {
    fn clone(&self) -> (copy: Self)
        ensures
            copy.tool.same(self.tool),
            copy.inner.same(self.inner),
            copy.operation_name@ == self.operation_name@,
            text_of(copy.stripped_source_text) == text_of(self.stripped_source_text),
            tree_view(copy.private_fields) == tree_view(self.private_fields),
    {
        Operation {
            tool: self.tool.clone(),
            inner: self.inner.clone(),
            operation_name: self.operation_name.clone(),
            stripped_source_text: match &self.stripped_source_text {
                Some(text) => Some(text.clone()),
                None => None,
            },
            private_fields: match &self.private_fields {
                Some(tree) => Some(tree.clone()),
                None => None,
            },
        }
    }
}

/// A tree of private fields says its paths, name by name and in order.
pub proof fn law_what_private_fields_say(tree: PrivateFieldTree, i: int, j: int)
    requires
        0 <= i < tree.paths@.len(),
        0 <= j < tree.paths@[i]@.len(),
    ensures
        tree@.len() == tree.paths@.len(),
        tree@[i].len() == tree.paths@[i]@.len(),
        tree@[i][j] == tree.paths@[i]@[j]@,
        tree_view(Some(tree)) == Some(tree@),
        tree_view(None) is None,
{
}

} // verus!
