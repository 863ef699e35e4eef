# flowstate

A workflow state-machine library verified with Verus.

A workflow is a value that is in one state at a time. Each step consumes the
workflow and either continues with the workflow in its next state or finishes
with a result. Middleware can wrap the whole run and every step; workflows and
states record a typed context for it.

## Layout

- `src/workflow.rs`: the `Workflow`, `WorkflowState` and `RunWorkflow` traits.
  `run` and `run_with_middleware` return `outcome(w)`, the result of the first
  step that finishes, for workflows whose steps are specified
  (`obeys_step_spec`) with a decreasing `remaining_steps` bound.
- `src/state.rs`: the `State` and `AsyncState` traits.
- `src/context.rs`: `Context` and `AsyncContext`, maps from keys to values kept
  in ascending byte order of the keys, with `TypedKey` and `RawKey`.
- `src/middleware/`: the `WorkflowMiddleware` trait, `IdentityMiddleware`, and
  `MiddlewareStack` with its builder.
- `src/tracing_middleware.rs`: middleware that runs runs and steps inside
  `tracing` spans.
- `src/subscriber.rs`, `src/fields.rs`, `src/trace_source.rs`: a recorder of
  spans and events (`TestSubscriber`) and the history it builds.
- `src/derive/`: the rules that the workflow and state derives hold a definition
  to, the grammar of the `#[flowstate(...)]` arguments, and the source text
  that the derives emit (`generate.rs`). That source is written for the
  trait-object form of the workflow traits (`next(self: Box<Self>)`,
  `Transition<'workflow, Result>`, `&dyn State`, contexts of any value type),
  not for the traits in `src/workflow.rs`: it does not compile against this
  crate. `syntax.rs` reads the item's source through `syn` into the
  description that the rules and generators work on.
- `app/`: what is not verified: the async runtime, the `tracing::Subscriber`
  that records into a `TestSubscriber`, the default spans, and the derive
  front end that hands an item's source to the library and turns the
  generated source into tokens.

Steps transition a workflow to a value of its own type, so a workflow with
several states keeps them in an enum. Contexts hold values of one type, chosen
by the workflow.
