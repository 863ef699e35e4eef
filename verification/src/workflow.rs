//! Workflows and how they run.
//!
//! A workflow is a value that is in one state at a time. Each step consumes
//! the workflow and either continues with the workflow in its next state or
//! finishes with the workflow's result.
use crate::context::Context;
use crate::middleware::{WorkflowMetadata, WorkflowMiddleware, WorkflowStateMetadata};
use crate::state::State;
use std::ops::ControlFlow;
use vstd::prelude::*;

verus! {

/// What a step returns: the workflow in its next state, or the result.
pub type Transition<Result, W> = ControlFlow<Result, W>;

/// A workflow in some state.
pub trait Workflow {
    /// The type of the values that the workflow and its states record for
    /// middleware.
    type ContextValue;

    /// The type of the workflow's current state.
    type CurrentState: State<Self::ContextValue>;

    /// Whether [`Workflow::workflow_name`], [`Workflow::state`] and
    /// [`Workflow::record_workflow_context`] follow
    /// [`Workflow::name_of_workflow`], [`Workflow::current_state`] and
    /// [`Workflow::recorded_workflow_context`]; by default they are not
    /// specified.
    open spec fn obeys_workflow_spec() -> bool {
        false
    }

    /// The workflow's name.
    open spec fn name_of_workflow(&self) -> Seq<char> {
        arbitrary()
    }

    /// The workflow's current state.
    open spec fn current_state(&self) -> Self::CurrentState {
        arbitrary()
    }

    /// The values, by key, that the workflow records for middleware.
    open spec fn recorded_workflow_context(&self) -> Map<Seq<char>, Self::ContextValue> {
        arbitrary()
    }

    /// The workflow's name, as middleware reports it.
    fn workflow_name(&self) -> (r: String)
        ensures
            Self::obeys_workflow_spec() ==> r@ == self.name_of_workflow(),
    ;

    /// The workflow's current state.
    fn state(&self) -> (r: &Self::CurrentState)
        ensures
            Self::obeys_workflow_spec() ==> *r == self.current_state(),
    ;

    /// Records what middleware should know about the workflow: each value
    /// that it records replaces what `ctx` held under that key.
    fn record_workflow_context(&self, ctx: &mut Context<Self::ContextValue>)
        ensures
            Self::obeys_workflow_spec() ==> final(ctx)@ == old(ctx)@.union_prefer_right(
                self.recorded_workflow_context(),
            ),
    ;
}

/// A workflow that can take a step towards a result of type `Result`.
///
/// Each step either continues with the workflow in its next state or
/// finishes with the result. A workflow whose steps are specified
/// ([`WorkflowState::obeys_step_spec`]) describes each step by
/// [`WorkflowState::step`] and bounds the steps that it still takes by
/// [`WorkflowState::remaining_steps`], which each step that continues makes
/// smaller.
pub trait WorkflowState<Result>: Workflow + Sized {
    /// Whether [`WorkflowState::next`] follows [`WorkflowState::step`] and
    /// makes progress; by default it is not specified.
    open spec fn obeys_step_spec() -> bool {
        false
    }

    /// A bound on the number of steps that the workflow still takes.
    open spec fn remaining_steps(&self) -> nat {
        0
    }

    /// What a step from this workflow returns.
    open spec fn step(self) -> Transition<Result, Self> {
        arbitrary()
    }

    /// The name of the current state; by default the state's own name.
    fn name(&self) -> (r: String)
        ensures
            Self::obeys_workflow_spec() && <Self::CurrentState as State<
                Self::ContextValue,
            >>::obeys_state_spec() ==> r@ == self.current_state().state_name(),
    {
        self.state().name()
    }

    /// Consumes the workflow in its current state and returns either the
    /// workflow in its next state or the result.
    fn next(self) -> (t: Transition<Result, Self>)
        ensures
            Self::obeys_step_spec() ==> t == self.step(),
            Self::obeys_step_spec() ==> (t matches ControlFlow::Continue(n) ==> n.remaining_steps()
                < self.remaining_steps()),
    ;

    /// Records what middleware should know about the current state; by
    /// default what the state records.
    fn record_context(&self, ctx: &mut Context<Self::ContextValue>)
        ensures
            Self::obeys_workflow_spec() && <Self::CurrentState as State<
                Self::ContextValue,
            >>::obeys_state_spec() ==> final(ctx)@ == old(ctx)@.union_prefer_right(
                self.current_state().recorded_context(),
            ),
    {
        self.state().record_context(ctx)
    }

    /// Finishes the workflow with `result`.
    fn finish(self, result: Result) -> (t: Transition<Result, Self>)
        ensures
            t == Transition::<Result, Self>::Break(result),
    {
        ControlFlow::Break(result)
    }

    /// Finishes the workflow with the result that `map_fn` makes of it.
    fn finish_with<F: FnOnce(Self) -> Result>(self, map_fn: F) -> (t: Transition<Result, Self>)
        requires
            map_fn.requires((self,)),
        ensures
            t matches ControlFlow::Break(r) && map_fn.ensures((self,), r),
    {
        ControlFlow::Break(map_fn(self))
    }
}

/// The result that a workflow finishes with: the result of its first step
/// that finishes, after the steps that continue.
pub open spec fn outcome<Result, W: WorkflowState<Result>>(w: W) -> Result
    decreases w.remaining_steps(),
{
    match w.step() {
        ControlFlow::Continue(n) => if n.remaining_steps() < w.remaining_steps() {
            outcome::<Result, W>(n)
        } else {
            arbitrary()
        },
        ControlFlow::Break(r) => r,
    }
}

/// Running a workflow to its result.
pub trait RunWorkflow<Result>: WorkflowState<Result> {
    /// Takes steps until the workflow finishes, and returns its result.
    fn run(self) -> (r: Result)
        requires
            Self::obeys_step_spec(),
        ensures
            r == outcome::<Result, Self>(self),
    ;

    /// Takes steps until the workflow finishes, each inside `middleware`,
    /// the whole run inside `middleware` too, and returns the result.
    ///
    /// The run is handed to `middleware` with the workflow's name and the
    /// context that the workflow records, and each step with the current
    /// state's name and the context that the state records, one step after
    /// the other ([`accepts_run`]).
    fn run_with_middleware<M: WorkflowMiddleware<Self::ContextValue>>(self, middleware: M) -> (r:
        Result)
        requires
            Self::obeys_step_spec(),
            accepts_run::<Result, Self, M>(middleware, self),
        ensures
            r == outcome::<Result, Self>(self),
    ;
}

/// The workflow and its states follow their specification: their names
/// and contexts are the spec functions' values.
pub open spec fn names_and_contexts_specified<Result, W: WorkflowState<Result>>() -> bool {
    W::obeys_workflow_spec() && <W::CurrentState as State<W::ContextValue>>::obeys_state_spec()
}

/// `m` accepts each step of a run from `w` on: at each step the current
/// state's name and the context it records, one step after the other
/// until a step finishes. Where the names and contexts are not specified,
/// `m` must accept every name and context.
pub open spec fn accepts_steps<Result, W: WorkflowState<Result>, M: WorkflowMiddleware<
    W::ContextValue,
>>(m: M, w: W) -> bool
    decreases w.remaining_steps(),
{
    &&& if names_and_contexts_specified::<Result, W>() {
        m.accepts_state(w.current_state().state_name(), w.current_state().recorded_context())
    } else {
        forall|name: Seq<char>, ctx: Map<Seq<char>, W::ContextValue>| m.accepts_state(name, ctx)
    }
    &&& match w.step() {
        ControlFlow::Continue(n) => if n.remaining_steps() < w.remaining_steps() {
            accepts_steps::<Result, W, M>(m, n)
        } else {
            true
        },
        ControlFlow::Break(_) => true,
    }
}

/// `m` accepts what a run of `w` hands it: the workflow's name and the
/// context that it records for the whole run, and each step as
/// [`accepts_steps`] says. Where the workflow's name and context are not
/// specified, `m` must accept every name and context for the run.
pub open spec fn accepts_run<Result, W: WorkflowState<Result>, M: WorkflowMiddleware<
    W::ContextValue,
>>(m: M, w: W) -> bool {
    &&& if W::obeys_workflow_spec() {
        m.accepts_workflow(w.name_of_workflow(), w.recorded_workflow_context())
    } else {
        forall|name: Seq<char>, ctx: Map<Seq<char>, W::ContextValue>| m.accepts_workflow(name, ctx)
    }
    &&& accepts_steps::<Result, W, M>(m, w)
}

/// The context that middleware is handed for a whole run: what the
/// workflow records, starting from an empty context.
pub fn workflow_context<W: Workflow>(w: &W) -> (ctx: Context<W::ContextValue>)
    ensures
        W::obeys_workflow_spec() ==> ctx@ == w.recorded_workflow_context(),
{
    let mut ctx: Context<W::ContextValue> = Context::new();
    w.record_workflow_context(&mut ctx);
    proof {
        if W::obeys_workflow_spec() {
            assert(ctx@ =~= w.recorded_workflow_context());
        }
    }
    ctx
}

/// The context that middleware is handed for a step: what the current
/// state records, starting from an empty context.
pub fn state_context<Result, W: WorkflowState<Result>>(w: &W) -> (ctx: Context<W::ContextValue>)
    ensures
        W::obeys_workflow_spec() && <W::CurrentState as State<W::ContextValue>>::obeys_state_spec()
            ==> ctx@ == w.current_state().recorded_context(),
{
    let mut ctx: Context<W::ContextValue> = Context::new();
    w.record_context(&mut ctx);
    proof {
        if W::obeys_workflow_spec() && <W::CurrentState as State<
            W::ContextValue,
        >>::obeys_state_spec() {
            assert(ctx@ =~= w.current_state().recorded_context());
        }
    }
    ctx
}

/// Takes steps from `initial` until it finishes, each step inside
/// `middleware` with the state's name and the context that the state
/// records.
fn run_states<Result, W, M>(initial: W, middleware: &M) -> (r: Result) where
    W: WorkflowState<Result>,
    M: WorkflowMiddleware<W::ContextValue>,

    requires
        W::obeys_step_spec(),
        accepts_steps::<Result, W, M>(*middleware, initial),
    ensures
        r == outcome::<Result, W>(initial),
{
    let mut workflow = initial;
    loop
        invariant
            W::obeys_step_spec(),
            accepts_steps::<Result, W, M>(*middleware, workflow),
            outcome::<Result, W>(workflow) == outcome::<Result, W>(initial),
        decreases workflow.remaining_steps(),
    {
        let state_name = workflow.name();
        let metadata = WorkflowStateMetadata { name: state_name.as_str() };
        let ctx = state_context(&workflow);
        let ghost current = workflow;
        let step = move || -> (t: Transition<Result, W>)
            requires
                W::obeys_step_spec(),
            ensures
                t == current.step(),
                t matches ControlFlow::Continue(n) ==> n.remaining_steps()
                    < current.remaining_steps(),
            { workflow.next() };
        let transition = middleware.wrap_state(&metadata, &ctx, step);
        match transition {
            ControlFlow::Continue(next) => {
                workflow = next;
            },
            ControlFlow::Break(result) => {
                assert(outcome::<Result, W>(current) == result);
                return result;
            },
        }
    }
}

impl<Result, W: WorkflowState<Result>> RunWorkflow<Result> for W {
    fn run(self) -> (r: Result) {
        let mut workflow = self;
        loop
            invariant
                W::obeys_step_spec(),
                outcome::<Result, W>(workflow) == outcome::<Result, W>(self),
            decreases workflow.remaining_steps(),
        {
            let ghost current = workflow;
            match workflow.next() {
                ControlFlow::Continue(next) => {
                    workflow = next;
                },
                ControlFlow::Break(result) => {
                    assert(outcome::<Result, W>(current) == result);
                    return result;
                },
            }
        }
    }

    fn run_with_middleware<M: WorkflowMiddleware<W::ContextValue>>(self, middleware: M) -> (r:
        Result) {
        let workflow_name = self.workflow_name();
        let metadata = WorkflowMetadata { name: workflow_name.as_str() };
        let ctx = workflow_context(&self);
        let ghost first = self;
        let inner = &middleware;
        let run_all = move || -> (r: Result)
            requires
                W::obeys_step_spec(),
                accepts_steps::<Result, W, M>(*inner, first),
            ensures
                r == outcome::<Result, W>(first),
            { run_states(self, inner) };
        middleware.wrap_workflow(&metadata, &ctx, run_all)
    }
}

} // verus!

verus! {

/// A workflow whose step finishes has that step's result as its outcome,
/// and one whose step continues has the outcome of the workflow that it
/// continues with.
pub proof fn law_outcome_follows_steps<Result, W: WorkflowState<Result>>(w: W)
    requires
        W::obeys_step_spec(),
        w.step() matches ControlFlow::Continue(n) ==> n.remaining_steps() < w.remaining_steps(),
    ensures
        w.step() matches ControlFlow::Break(r) ==> outcome::<Result, W>(w) == r,
        w.step() matches ControlFlow::Continue(n) ==> outcome::<Result, W>(w) == outcome::<
            Result,
            W,
        >(n),
{
}

} // verus!
