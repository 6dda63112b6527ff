//! JSON Schemas of GraphQL types.

pub mod acceptance;
pub mod definitions;
pub mod keywords;
pub mod layout;
pub mod nullable;
pub mod reachable;
pub mod references;
pub mod shape;
pub mod walk;
