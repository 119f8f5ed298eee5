//! Decision logic of an OCI runtime that launches unikernels.
pub mod config;
pub mod schema;
pub mod text;
pub mod env;
pub mod delete;
pub mod start;
pub mod create;
pub mod cli;
