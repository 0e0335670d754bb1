//! Schema definitions for event pipelines: a structural type, named meanings
//! that point into it, and the log namespaces a schema is valid for.
pub mod path;
pub mod meaning;
pub mod kind;
pub mod namespace;
pub mod definition;
pub mod laws;
