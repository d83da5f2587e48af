//! Configuration: the policy settings, their defaults, merging and validation.

pub mod aliases;
pub mod types;
pub mod copy;
pub mod accessors;
pub mod merge;
pub mod defaults;
pub mod validate;
pub mod error;
pub mod schema;
pub mod loading;
