//! Middleware that runs a workflow and each of its steps inside a tracing
//! span.
//!
//! The span of a run or a step is the one that the workflow or the state
//! recorded in its context under the key `"span"`; if there is none, the one
//! that the span factory makes; if the factory makes none, the run or step
//! goes without a span.
use crate::context::{AsyncContext, Context, TypedKey};
use crate::middleware::{WorkflowMetadata, WorkflowMiddleware, WorkflowStateMetadata};
use tracing::Span;
use vstd::prelude::*;

verus! {

/// A span of the `tracing` crate.
#[verifier::external_type_specification]
#[verifier::external_body]
pub struct ExSpan(Span);

/// Runs `f` with `span` entered, through `Span::in_scope`, which enters
/// the span, calls `f` once and leaves the span; it returns what `f`
/// returns.
#[verifier::external_body]
fn in_span<T, F: FnOnce() -> T>(span: &Span, f: F) -> (r: T)
    requires
        f.requires(()),
    ensures
        f.ensures((), r),
{
    span.in_scope(f)
}

/// Makes the span for a whole workflow run.
pub trait WorkflowSpanFactory {
    /// Whether [`WorkflowSpanFactory::make_workflow_span`] makes a span
    /// exactly for the names that [`WorkflowSpanFactory::makes_workflow_span`]
    /// holds of; by default it is not specified.
    open spec fn obeys_factory_spec() -> bool {
        false
    }

    /// Whether the factory makes a span for the run of the workflow named
    /// `name`.
    open spec fn makes_workflow_span(&self, name: Seq<char>) -> bool {
        arbitrary()
    }

    /// The span for the run of the workflow described by `metadata`, if any.
    fn make_workflow_span(&self, metadata: &WorkflowMetadata) -> (r: Option<Span>)
        ensures
            Self::obeys_factory_spec() ==> (r is Some <==> self.makes_workflow_span(metadata.name@)),
    ;
}

/// Makes no span.
impl WorkflowSpanFactory for () {
    open spec fn obeys_factory_spec() -> bool {
        true
    }

    open spec fn makes_workflow_span(&self, name: Seq<char>) -> bool {
        false
    }

    fn make_workflow_span(&self, _metadata: &WorkflowMetadata) -> (r: Option<Span>) {
        None
    }
}

/// Makes the span for one state's step.
pub trait StateSpanFactory {
    /// Whether [`StateSpanFactory::make_state_span`] makes a span exactly
    /// for the names that [`StateSpanFactory::makes_state_span`] holds of;
    /// by default it is not specified.
    open spec fn obeys_factory_spec() -> bool {
        false
    }

    /// Whether the factory makes a span for the step of the state named
    /// `name`.
    open spec fn makes_state_span(&self, name: Seq<char>) -> bool {
        arbitrary()
    }

    /// The span for the step of the state described by `metadata`, if any.
    fn make_state_span(&self, metadata: &WorkflowStateMetadata) -> (r: Option<Span>)
        ensures
            Self::obeys_factory_spec() ==> (r is Some <==> self.makes_state_span(metadata.name@)),
    ;
}

/// Makes no span.
impl StateSpanFactory for () {
    open spec fn obeys_factory_spec() -> bool {
        true
    }

    open spec fn makes_state_span(&self, name: Seq<char>) -> bool {
        false
    }

    fn make_state_span(&self, _metadata: &WorkflowStateMetadata) -> (r: Option<Span>) {
        None
    }
}

/// The span that a run or a step goes in.
pub enum SpanChoice<'a> {
    /// The span recorded in the context under `"span"`.
    Recorded(&'a Span),
    /// The span that the factory made.
    Made(Span),
    /// No span.
    Without,
}

/// The span for a workflow run: the one that `ctx` holds under `"span"`;
/// else, and only then, the one that `factory` makes; else none.
pub fn workflow_span<'a, W: WorkflowSpanFactory>(
    factory: &W,
    metadata: &WorkflowMetadata,
    ctx: &'a Context<Span>,
) -> (r: SpanChoice<'a>)
    ensures
        ctx@.contains_key("span"@) ==> (r matches SpanChoice::Recorded(s) && *s == ctx@["span"@]),
        !ctx@.contains_key("span"@) ==> !(r is Recorded),
        !ctx@.contains_key("span"@) && W::obeys_factory_spec() ==> (r is Made
            <==> factory.makes_workflow_span(metadata.name@)),
{
    match ctx.get(&TypedKey::new("span")) {
        Some(span) => SpanChoice::Recorded(span),
        None => match factory.make_workflow_span(metadata) {
            Some(span) => SpanChoice::Made(span),
            None => SpanChoice::Without,
        },
    }
}

/// The span for a step: the one that `ctx` holds under `"span"`; else,
/// and only then, the one that `factory` makes; else none.
pub fn state_span<'a, S: StateSpanFactory>(
    factory: &S,
    metadata: &WorkflowStateMetadata,
    ctx: &'a Context<Span>,
) -> (r: SpanChoice<'a>)
    ensures
        ctx@.contains_key("span"@) ==> (r matches SpanChoice::Recorded(s) && *s == ctx@["span"@]),
        !ctx@.contains_key("span"@) ==> !(r is Recorded),
        !ctx@.contains_key("span"@) && S::obeys_factory_spec() ==> (r is Made
            <==> factory.makes_state_span(metadata.name@)),
{
    match ctx.get(&TypedKey::new("span")) {
        Some(span) => SpanChoice::Recorded(span),
        None => match factory.make_state_span(metadata) {
            Some(span) => SpanChoice::Made(span),
            None => SpanChoice::Without,
        },
    }
}

/// The span for a workflow run whose context may cross threads, chosen as
/// [`workflow_span`] chooses it.
pub fn async_workflow_span<'a, W: WorkflowSpanFactory>(
    factory: &W,
    metadata: &WorkflowMetadata,
    ctx: &'a AsyncContext<Span>,
) -> (r: SpanChoice<'a>)
    ensures
        ctx@.contains_key("span"@) ==> (r matches SpanChoice::Recorded(s) && *s == ctx@["span"@]),
        !ctx@.contains_key("span"@) ==> !(r is Recorded),
        !ctx@.contains_key("span"@) && W::obeys_factory_spec() ==> (r is Made
            <==> factory.makes_workflow_span(metadata.name@)),
{
    match ctx.get(&TypedKey::new("span")) {
        Some(span) => SpanChoice::Recorded(span),
        None => match factory.make_workflow_span(metadata) {
            Some(span) => SpanChoice::Made(span),
            None => SpanChoice::Without,
        },
    }
}

/// The span for a step whose context may cross threads, chosen as
/// [`state_span`] chooses it.
pub fn async_state_span<'a, S: StateSpanFactory>(
    factory: &S,
    metadata: &WorkflowStateMetadata,
    ctx: &'a AsyncContext<Span>,
) -> (r: SpanChoice<'a>)
    ensures
        ctx@.contains_key("span"@) ==> (r matches SpanChoice::Recorded(s) && *s == ctx@["span"@]),
        !ctx@.contains_key("span"@) ==> !(r is Recorded),
        !ctx@.contains_key("span"@) && S::obeys_factory_spec() ==> (r is Made
            <==> factory.makes_state_span(metadata.name@)),
{
    match ctx.get(&TypedKey::new("span")) {
        Some(span) => SpanChoice::Recorded(span),
        None => match factory.make_state_span(metadata) {
            Some(span) => SpanChoice::Made(span),
            None => SpanChoice::Without,
        },
    }
}

/// Runs `next` in the chosen span, or without one.
fn run_in<T, F: FnOnce() -> T>(choice: SpanChoice, next: F) -> (r: T)
    requires
        next.requires(()),
    ensures
        next.ensures((), r),
{
    match choice {
        SpanChoice::Recorded(span) => in_span(span, next),
        SpanChoice::Made(span) => in_span(&span, next),
        SpanChoice::Without => next(),
    }
}

/// Middleware that runs a workflow and each step inside a span.
pub struct TracingMiddleware<W, S> {
    workflow_span_factory: W,
    state_span_factory: S,
}

impl<W, S> TracingMiddleware<W, S> {
    /// The factory of the spans for workflow runs.
    pub closed spec fn workflow_span_factory(&self) -> W {
        self.workflow_span_factory
    }

    /// The factory of the spans for steps.
    pub closed spec fn state_span_factory(&self) -> S {
        self.state_span_factory
    }

    /// The factory of the spans for workflow runs.
    pub fn workflow_spans(&self) -> (r: &W)
        ensures
            *r == self.workflow_span_factory(),
    {
        &self.workflow_span_factory
    }

    /// The factory of the spans for steps.
    pub fn state_spans(&self) -> (r: &S)
        ensures
            *r == self.state_span_factory(),
    {
        &self.state_span_factory
    }

    /// Middleware with the given span factories.
    pub fn new(workflow_span_factory: W, state_span_factory: S) -> (r: Self)
        ensures
            r.workflow_span_factory() == workflow_span_factory,
            r.state_span_factory() == state_span_factory,
    {
        TracingMiddleware { workflow_span_factory, state_span_factory }
    }

    /// The same middleware, with its spans for workflow runs made by
    /// `workflow_span_factory`.
    pub fn with_workflow_span<W2: WorkflowSpanFactory>(self, workflow_span_factory: W2) -> (r:
        TracingMiddleware<W2, S>)
        ensures
            r.workflow_span_factory() == workflow_span_factory,
            r.state_span_factory() == self.state_span_factory(),
    {
        TracingMiddleware { workflow_span_factory, state_span_factory: self.state_span_factory }
    }

    /// The same middleware, with its spans for steps made by
    /// `state_span_factory`.
    pub fn with_state_span<S2: StateSpanFactory>(self, state_span_factory: S2) -> (r:
        TracingMiddleware<W, S2>)
        ensures
            r.workflow_span_factory() == self.workflow_span_factory(),
            r.state_span_factory() == state_span_factory,
    {
        TracingMiddleware { workflow_span_factory: self.workflow_span_factory, state_span_factory }
    }
}

impl<W: WorkflowSpanFactory, S: StateSpanFactory> WorkflowMiddleware<Span> for TracingMiddleware<
    W,
    S,
> {
    fn wrap_workflow<R, F: FnOnce() -> R>(
        &self,
        metadata: &WorkflowMetadata,
        ctx: &Context<Span>,
        next: F,
    ) -> (r: R) {
        run_in(workflow_span(&self.workflow_span_factory, metadata, ctx), next)
    }

    fn wrap_state<T, F: FnOnce() -> T>(
        &self,
        metadata: &WorkflowStateMetadata,
        ctx: &Context<Span>,
        next: F,
    ) -> (r: T) {
        run_in(state_span(&self.state_span_factory, metadata, ctx), next)
    }
}

} // verus!
