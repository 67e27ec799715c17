//! Resources and data sources whose life cycle is driven by commands: their states,
//! how they are planned and validated, and how the outputs of their commands are read.

pub mod state;
pub mod env;
pub mod plan;
pub mod ambiguity;
pub mod validate;
pub mod read;
pub mod apply;
