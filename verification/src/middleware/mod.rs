//! Middleware: code that runs around a whole workflow and around each step.
pub mod identity;
pub mod stack;

use crate::context::Context;
use vstd::prelude::*;

verus! {

/// What middleware learns about the workflow that it wraps.
#[derive(Clone, Copy, Debug)]
#[non_exhaustive]
pub struct WorkflowMetadata<'a> {
    pub name: &'a str,
}

/// What middleware learns about the workflow state whose step it wraps.
#[derive(Clone, Copy, Debug)]
#[non_exhaustive]
pub struct WorkflowStateMetadata<'a> {
    pub name: &'a str,
}

impl<'a> WorkflowMetadata<'a> {
    /// The metadata of a workflow named `name`.
    pub fn new(name: &'a str) -> (r: Self)
        ensures
            r.name == name,
    {
        WorkflowMetadata { name }
    }
}

impl<'a> WorkflowStateMetadata<'a> {
    /// The metadata of a state named `name`.
    pub fn new(name: &'a str) -> (r: Self)
        ensures
            r.name == name,
    {
        WorkflowStateMetadata { name }
    }
}

/// Code that runs around a whole workflow run and around each state step.
///
/// A wrapper may do what it likes before and after, but it runs the step
/// that it is handed exactly once and hands back what that step returned.
///
/// A middleware may ask what it is handed to be so through
/// [`WorkflowMiddleware::accepts_workflow`] and
/// [`WorkflowMiddleware::accepts_state`]; every caller must then hand it a
/// name and a context that it accepts.
pub trait WorkflowMiddleware<V> {
    /// Whether the middleware accepts wrapping the run of a workflow named
    /// `name` that recorded `ctx`; by default it accepts every run.
    open spec fn accepts_workflow(&self, name: Seq<char>, ctx: Map<Seq<char>, V>) -> bool {
        true
    }

    /// Whether the middleware accepts wrapping the step of a state named
    /// `name` that recorded `ctx`; by default it accepts every step.
    open spec fn accepts_state(&self, name: Seq<char>, ctx: Map<Seq<char>, V>) -> bool {
        true
    }

    /// Runs `next`, the whole workflow, inside this middleware.
    fn wrap_workflow<R, F: FnOnce() -> R>(
        &self,
        metadata: &WorkflowMetadata,
        ctx: &Context<V>,
        next: F,
    ) -> (r: R)
        requires
            next.requires(()),
            self.accepts_workflow(metadata.name@, ctx@),
        ensures
            next.ensures((), r),
    {
        next()
    }

    /// Runs `next`, one state's step, inside this middleware.
    fn wrap_state<T, F: FnOnce() -> T>(
        &self,
        metadata: &WorkflowStateMetadata,
        ctx: &Context<V>,
        next: F,
    ) -> (r: T)
        requires
            next.requires(()),
            self.accepts_state(metadata.name@, ctx@),
        ensures
            next.ensures((), r),
    {
        next()
    }
}

} // verus!
