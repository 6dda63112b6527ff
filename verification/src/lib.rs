//! GraphQL operations as tools: the JSON Schemas, descriptions and requests that
//! are derived from an operation document and a GraphQL schema.

pub mod document;
pub mod graphql;
pub mod introspect;
pub mod json;
pub mod notice;
pub mod operation;
pub mod results;
pub mod schema_walker;
pub mod shaken;
pub mod string_map;
pub mod text;
pub mod tool;
