use std::ops::ControlFlow;

use flowstate::middleware::{WorkflowMetadata, WorkflowStateMetadata};
use flowstate::tracing_middleware::{state_span, workflow_span, SpanChoice, TracingMiddleware};
use flowstate::{Context, RunWorkflow, State, Transition, TypedKey, Workflow, WorkflowState};
use tracing::Span;

struct Step(u8);

impl State<Span> for Step {
    fn name(&self) -> String {
        format!("Step({})", self.0)
    }

    fn record_context(&self, ctx: &mut Context<Span>) {
        if self.0 % 2 == 0 {
            ctx.insert(TypedKey::new("span"), Span::none());
        }
    }
}

struct Stepper {
    state: Step,
    seen: Vec<u8>,
}

impl Workflow for Stepper {
    type ContextValue = Span;
    type CurrentState = Step;

    fn workflow_name(&self) -> String {
        "Stepper".to_string()
    }

    fn state(&self) -> &Step {
        &self.state
    }

    fn record_workflow_context(&self, _ctx: &mut flowstate::Context<Self::ContextValue>) {}
}

impl WorkflowState<Vec<u8>> for Stepper {
    fn next(mut self) -> Transition<Vec<u8>, Self> {
        self.seen.push(self.state.0);
        if self.state.0 == 3 {
            self.finish_with(|w| w.seen)
        } else {
            ControlFlow::Continue(Stepper { state: Step(self.state.0 + 1), seen: self.seen })
        }
    }
}

#[test]
fn tracing_middleware_without_spans_keeps_the_result() {
    let middleware = TracingMiddleware::new((), ());
    let result = Stepper { state: Step(0), seen: vec![] }.run_with_middleware(middleware);
    assert_eq!(result, vec![0, 1, 2, 3]);
}

#[test]
fn tracing_middleware_factories_can_be_replaced() {
    let middleware = TracingMiddleware::new((), ()).with_workflow_span(()).with_state_span(());
    let result = Stepper { state: Step(1), seen: vec![] }.run_with_middleware(middleware);
    assert_eq!(result, vec![1, 2, 3]);
}

#[test]
fn span_choice_prefers_the_recorded_span() {
    let mut ctx: Context<Span> = Context::new();
    let metadata = WorkflowMetadata::new("W");
    assert!(matches!(workflow_span(&(), &metadata, &ctx), SpanChoice::Without));
    let state_metadata = WorkflowStateMetadata::new("S");
    assert!(matches!(state_span(&(), &state_metadata, &ctx), SpanChoice::Without));
    ctx.insert(TypedKey::new("span"), Span::none());
    assert!(matches!(workflow_span(&(), &metadata, &ctx), SpanChoice::Recorded(_)));
    assert!(matches!(state_span(&(), &state_metadata, &ctx), SpanChoice::Recorded(_)));
}
