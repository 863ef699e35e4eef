//! The middleware that adds nothing.
use crate::middleware::WorkflowMiddleware;
use vstd::prelude::*;

verus! {

/// Middleware that runs each step as it is.
#[derive(Default, Clone, Copy, Debug)]
pub struct IdentityMiddleware;

impl<V> WorkflowMiddleware<V> for IdentityMiddleware {

}

} // verus!
