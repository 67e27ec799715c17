//! Terraform provider library: values, attribute paths, diagnostics, schemas
//! and the decisions that a provider makes for each request of the protocol.

pub mod attribute_path;
pub mod cmd;
pub mod connection;
pub mod diagnostics;
pub mod file;
pub mod named_map;
pub mod order;
pub mod protocol;
pub mod provider;
pub mod raw;
pub mod schema;
pub mod value;
pub mod text;
pub mod utils;
