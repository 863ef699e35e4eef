//! The rules that `#[derive(Workflow)]` and `#[derive(State)]` hold a
//! definition to, and what they generate from it.
//!
//! A definition is described by the [`model`] types: a procedural-macro
//! front end fills them in from the parsed item and hands the attribute
//! arguments over as tokens; [`generate`] writes the source of what the
//! derives emit, which the front end parses back into tokens.

pub mod args;
pub mod error;
pub mod generate;
pub mod model;
pub mod syntax;
pub mod workflow_input;
