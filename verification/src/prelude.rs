//! The items that a workflow definition usually needs.
pub use crate::{RunWorkflow, State, Transition, Workflow, WorkflowState};
