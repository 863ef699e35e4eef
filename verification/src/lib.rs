//! A typed workflow state-machine library: a workflow moves from state to
//! state until it finishes with a result, and middleware may wrap the whole
//! run and every single step.
pub mod bytes_order;
pub mod context;
pub mod derive;
pub mod fields;
pub mod middleware;
pub mod prelude;
pub mod state;
pub mod subscriber;
pub mod trace_source;
pub mod tracing_middleware;
pub mod workflow;

pub use context::{AsyncContext, Context, RawKey, TypedKey};
pub use state::{AsyncState, State};
pub use workflow::{outcome, RunWorkflow, Transition, Workflow, WorkflowState};
