//! Stacks of middleware, built layer by layer.
use crate::context::Context;
use crate::middleware::identity::IdentityMiddleware;
use crate::middleware::{WorkflowMetadata, WorkflowMiddleware, WorkflowStateMetadata};
use vstd::prelude::*;

verus! {

/// Two middlewares, one inside the other: `outer` wraps what `inner` wraps.
pub struct MiddlewareStack<Inner, Outer> {
    inner: Inner,
    outer: Outer,
}

impl<Inner, Outer> MiddlewareStack<Inner, Outer> {
    /// The middleware closer to the step.
    pub closed spec fn inner(&self) -> Inner {
        self.inner
    }

    /// The middleware further from the step.
    pub closed spec fn outer(&self) -> Outer {
        self.outer
    }

    /// The middleware closer to the step.
    pub fn inner_ref(&self) -> (r: &Inner)
        ensures
            *r == self.inner(),
    {
        &self.inner
    }

    /// The middleware further from the step.
    pub fn outer_ref(&self) -> (r: &Outer)
        ensures
            *r == self.outer(),
    {
        &self.outer
    }
}

impl<V, Inner, Outer> WorkflowMiddleware<V> for MiddlewareStack<Inner, Outer> where
    Inner: WorkflowMiddleware<V>,
    Outer: WorkflowMiddleware<V>,
 {
    /// Both layers are handed the same name and context.
    open spec fn accepts_workflow(&self, name: Seq<char>, ctx: Map<Seq<char>, V>) -> bool {
        self.inner().accepts_workflow(name, ctx) && self.outer().accepts_workflow(name, ctx)
    }

    /// Both layers are handed the same name and context.
    open spec fn accepts_state(&self, name: Seq<char>, ctx: Map<Seq<char>, V>) -> bool {
        self.inner().accepts_state(name, ctx) && self.outer().accepts_state(name, ctx)
    }

    fn wrap_workflow<R, F: FnOnce() -> R>(
        &self,
        metadata: &WorkflowMetadata,
        ctx: &Context<V>,
        next: F,
    ) -> (r: R) {
        let inner = &self.inner;
        let wrapped = move || -> (r: R)
            requires
                next.requires(()),
                inner.accepts_workflow(metadata.name@, ctx@),
            ensures
                next.ensures((), r),
            { inner.wrap_workflow(metadata, ctx, next) };
        self.outer.wrap_workflow(metadata, ctx, wrapped)
    }

    fn wrap_state<T, F: FnOnce() -> T>(
        &self,
        metadata: &WorkflowStateMetadata,
        ctx: &Context<V>,
        next: F,
    ) -> (r: T) {
        let inner = &self.inner;
        let wrapped = move || -> (r: T)
            requires
                next.requires(()),
                inner.accepts_state(metadata.name@, ctx@),
            ensures
                next.ensures((), r),
            { inner.wrap_state(metadata, ctx, next) };
        self.outer.wrap_state(metadata, ctx, wrapped)
    }
}

/// Builds a [`MiddlewareStack`] one layer at a time.
pub struct MiddlewareStackBuilder<Stack>(Stack);

impl<Stack> MiddlewareStackBuilder<Stack> {
    /// The stack built so far.
    pub closed spec fn stack(&self) -> Stack {
        self.0
    }
}

impl MiddlewareStackBuilder<IdentityMiddleware> {
    /// A builder whose stack is empty: the identity middleware.
    pub fn new() -> (r: Self)
        ensures
            r.stack() == IdentityMiddleware,
    {
        MiddlewareStackBuilder(IdentityMiddleware)
    }
}

impl Default for MiddlewareStackBuilder<IdentityMiddleware> {
    fn default() -> (r: Self)
        ensures
            r.stack() == IdentityMiddleware,
    {
        MiddlewareStackBuilder::new()
    }
}

impl<Stack> MiddlewareStackBuilder<Stack> {
    /// Adds a new layer to the middleware stack.
    ///
    /// Layers are executed in the order they are added: the stack so far
    /// wraps the new layer.
    pub fn layer<Middleware>(self, middleware: Middleware) -> (r: MiddlewareStackBuilder<
        MiddlewareStack<Middleware, Stack>,
    >)
        ensures
            r.stack().inner() == middleware,
            r.stack().outer() == self.stack(),
    {
        MiddlewareStackBuilder(MiddlewareStack { inner: middleware, outer: self.0 })
    }

    /// The stack that was built.
    pub fn build(self) -> (r: Stack)
        ensures
            r == self.stack(),
    {
        self.0
    }
}

} // verus!

verus! {

/// Layers are executed in the order they are added: after adding `first`
/// and then `second` to a builder, the stack built so far is outermost,
/// `first` is inside it and `second` is innermost, closest to the step.
pub proof fn law_layers_in_order<Stack, First, Second>(
    start: MiddlewareStackBuilder<Stack>,
    after_first: MiddlewareStackBuilder<MiddlewareStack<First, Stack>>,
    after_second: MiddlewareStackBuilder<MiddlewareStack<Second, MiddlewareStack<First, Stack>>>,
    first: First,
    second: Second,
)
    requires
        after_first.stack().inner() == first,
        after_first.stack().outer() == start.stack(),
        after_second.stack().inner() == second,
        after_second.stack().outer() == after_first.stack(),
    ensures
        after_second.stack().inner() == second,
        after_second.stack().outer().inner() == first,
        after_second.stack().outer().outer() == start.stack(),
{
}

} // verus!

verus! {

/// A stack whose outer layer is the identity middleware accepts exactly
/// what its inner layer accepts: the identity adds nothing.
pub proof fn law_identity_layer_adds_nothing<V, M: WorkflowMiddleware<V>>(
    stack: MiddlewareStack<M, IdentityMiddleware>,
    name: Seq<char>,
    ctx: Map<Seq<char>, V>,
)
    ensures
        stack.accepts_workflow(name, ctx) == stack.inner().accepts_workflow(name, ctx),
        stack.accepts_state(name, ctx) == stack.inner().accepts_state(name, ctx),
{
}

} // verus!
