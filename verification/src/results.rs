//! What the functions of the library return, whatever is handed to them.

pub mod introspection;
pub mod operations;
pub mod requests;
pub mod schemas;
pub mod tools;
