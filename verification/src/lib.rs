//! Validation of cloud-init configuration documents against their JSON
//! schemas: resolving the references of a schema, compiling it, validating
//! YAML documents with it and shaping the results.

pub mod cli;
pub mod error;
pub mod json;
pub mod resolver;
pub mod schema;
pub mod service;
pub mod telemetry;
pub mod text;
pub mod trusted;
pub mod validator;
pub mod wire;
