use flowstate::{RunWorkflow, State, Transition, Workflow, WorkflowState};
use std::ops::ControlFlow;

struct StateA;

impl State<()> for StateA {
    fn name(&self) -> String {
        "basic_workflow_manual_impls::StateA".to_string()
    }

    fn record_context(&self, _ctx: &mut flowstate::Context<()>) {}
}

struct StateB;

impl State<()> for StateB {
    fn name(&self) -> String {
        "basic_workflow_manual_impls::StateB".to_string()
    }

    fn record_context(&self, _ctx: &mut flowstate::Context<()>) {}
}

enum AnyState {
    A(StateA),
    B(StateB),
}

impl State<()> for AnyState {
    fn name(&self) -> String {
        match self {
            AnyState::A(s) => s.name(),
            AnyState::B(s) => s.name(),
        }
    }

    fn record_context(&self, _ctx: &mut flowstate::Context<()>) {}
}

struct BasicWorkflow {
    state: AnyState,
}

impl BasicWorkflow {
    fn init() -> Self {
        Self { state: AnyState::A(StateA) }
    }

    fn transition(self, next_state: AnyState) -> Transition<WorkflowResult, Self> {
        ControlFlow::Continue(BasicWorkflow { state: next_state })
    }
}

impl Workflow for BasicWorkflow {
    type ContextValue = ();
    type CurrentState = AnyState;

    fn workflow_name(&self) -> String {
        "basic_workflow_manual_impls::BasicWorkflow".to_string()
    }

    fn state(&self) -> &AnyState {
        &self.state
    }

    fn record_workflow_context(&self, _ctx: &mut flowstate::Context<Self::ContextValue>) {}
}

impl WorkflowState<WorkflowResult> for BasicWorkflow {
    fn next(self) -> Transition<WorkflowResult, Self> {
        match self.state {
            AnyState::A(_) => self.transition(AnyState::B(StateB)),
            AnyState::B(_) => self.finish(WorkflowResult),
        }
    }
}

#[derive(Debug, PartialEq)]
struct WorkflowResult;

#[test]
fn basic_workflow_manual_impls_test_basic_workflow_manual_impls() {
    let workflow = BasicWorkflow::init();
    let result = workflow.run();
    assert_eq!(result, WorkflowResult);
}
