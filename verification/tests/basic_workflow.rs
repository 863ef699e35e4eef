use flowstate::prelude::{RunWorkflow, State, Transition, Workflow, WorkflowState};
use std::ops::ControlFlow;

struct StateA;

impl State<()> for StateA {
    fn name(&self) -> String {
        "basic_workflow::StateA".to_string()
    }

    fn record_context(&self, _ctx: &mut flowstate::Context<()>) {}
}

struct StateB;

impl State<()> for StateB {
    fn name(&self) -> String {
        "basic_workflow::StateB".to_string()
    }

    fn record_context(&self, _ctx: &mut flowstate::Context<()>) {}
}

enum BasicState {
    A(StateA),
    B(StateB),
}

impl State<()> for BasicState {
    fn name(&self) -> String {
        match self {
            BasicState::A(s) => s.name(),
            BasicState::B(s) => s.name(),
        }
    }

    fn record_context(&self, _ctx: &mut flowstate::Context<()>) {}
}

struct BasicWorkflow {
    state: BasicState,
}

impl BasicWorkflow {
    fn new(state: StateA) -> Self {
        BasicWorkflow { state: BasicState::A(state) }
    }
}

impl Workflow for BasicWorkflow {
    type ContextValue = ();
    type CurrentState = BasicState;

    fn workflow_name(&self) -> String {
        "BasicWorkflow".to_string()
    }

    fn state(&self) -> &BasicState {
        &self.state
    }

    fn record_workflow_context(&self, _ctx: &mut flowstate::Context<Self::ContextValue>) {}
}

impl WorkflowState<WorkflowResult> for BasicWorkflow {
    fn next(self) -> Transition<WorkflowResult, Self> {
        match self.state {
            BasicState::A(_) => ControlFlow::Continue(BasicWorkflow { state: BasicState::B(StateB) }),
            BasicState::B(_) => self.finish(WorkflowResult),
        }
    }
}

#[derive(Debug, PartialEq)]
struct WorkflowResult;

#[test]
fn basic_workflow_test_basic_workflow() {
    let workflow = BasicWorkflow::new(StateA);
    let result = workflow.run();
    assert_eq!(result, WorkflowResult);
}
