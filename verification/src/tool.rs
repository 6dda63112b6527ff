//! Tools that are offered to a model.

use crate::json::{self, Object};
use crate::text::text_of;
use vstd::prelude::*;

verus! {

/// Hints about what a tool does.
#[derive(Debug)]
pub struct ToolAnnotations {
    pub title: Option<String>,
    pub read_only_hint: Option<bool>,
    pub destructive_hint: Option<bool>,
    pub idempotent_hint: Option<bool>,
    pub open_world_hint: Option<bool>,
}

/// A tool: its name, what it is for, and the JSON Schemas of what it takes and gives.
#[derive(Debug)]
pub struct Tool {
    pub name: String,
    pub description: Option<String>,
    pub input_schema: Object,
    pub output_schema: Option<Object>,
    pub annotations: Option<ToolAnnotations>,
}

impl ToolAnnotations {
    /// Whether two lists of hints say the same.
    pub open spec fn same(self, other: ToolAnnotations) -> bool {
        &&& text_of(self.title) == text_of(other.title)
        &&& self.read_only_hint == other.read_only_hint
        &&& self.destructive_hint == other.destructive_hint
        &&& self.idempotent_hint == other.idempotent_hint
        &&& self.open_world_hint == other.open_world_hint
    }
}

impl Clone for ToolAnnotations {
    fn clone(&self) -> (copy: Self)
        ensures
            copy.same(*self),
    {
        ToolAnnotations {
            title: match &self.title {
                Some(title) => Some(title.clone()),
                None => None,
            },
            read_only_hint: self.read_only_hint,
            destructive_hint: self.destructive_hint,
            idempotent_hint: self.idempotent_hint,
            open_world_hint: self.open_world_hint,
        }
    }
}

impl Tool {
    /// Whether two tools say the same.
    pub open spec fn same(self, other: Tool) -> bool {
        &&& self.name@ == other.name@
        &&& text_of(self.description) == text_of(other.description)
        &&& json::ordered_members(self.input_schema) == json::ordered_members(other.input_schema)
        &&& json::object_entries(self.output_schema) == json::object_entries(other.output_schema)
        &&& match (self.annotations, other.annotations) {
            (Some(a), Some(b)) => a.same(b),
            (None, None) => true,
            _ => false,
        }
    }
}

impl Clone for Tool {
    fn clone(&self) -> (copy: Self)
        ensures
            copy.same(*self),
    {
        Tool {
            name: self.name.clone(),
            description: match &self.description {
                Some(description) => Some(description.clone()),
                None => None,
            },
            input_schema: json::clone_object(&self.input_schema),
            output_schema: match &self.output_schema {
                Some(schema) => Some(json::clone_object(schema)),
                None => None,
            },
            annotations: match &self.annotations {
                Some(annotations) => Some(annotations.clone()),
                None => None,
            },
        }
    }
}

} // verus!
