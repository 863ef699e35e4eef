use flowstate::{RunWorkflow, State, Transition, Workflow, WorkflowState};
use std::ops::ControlFlow;

struct WorkflowContext {
    result: String,
}

enum WorkflowWithContextState {
    StateA,
    StateB,
}

impl State<()> for WorkflowWithContextState {
    fn name(&self) -> String {
        match self {
            WorkflowWithContextState::StateA => "StateA".to_string(),
            WorkflowWithContextState::StateB => "StateB".to_string(),
        }
    }

    fn record_context(&self, _ctx: &mut flowstate::Context<()>) {}
}

struct WorkflowWithContext {
    state: WorkflowWithContextState,
    ctx: WorkflowContext,
}

impl WorkflowWithContext {
    fn new(state: WorkflowWithContextState, ctx: WorkflowContext) -> Self {
        WorkflowWithContext { state, ctx }
    }
}

impl Workflow for WorkflowWithContext {
    type ContextValue = ();
    type CurrentState = WorkflowWithContextState;

    fn workflow_name(&self) -> String {
        "WorkflowWithContext".to_string()
    }

    fn state(&self) -> &WorkflowWithContextState {
        &self.state
    }

    fn record_workflow_context(&self, _ctx: &mut flowstate::Context<Self::ContextValue>) {}
}

impl WorkflowState<String> for WorkflowWithContext {
    fn next(self) -> Transition<String, Self> {
        match self.state {
            WorkflowWithContextState::StateA => ControlFlow::Continue(WorkflowWithContext {
                state: WorkflowWithContextState::StateB,
                ctx: self.ctx,
            }),
            WorkflowWithContextState::StateB => {
                let result = self.ctx.result.clone();

                self.finish(result)
            }
        }
    }
}

#[test]
fn test_workflow_with_context() {
    let workflow = WorkflowWithContext::new(
        WorkflowWithContextState::StateA,
        WorkflowContext {
            result: "Hello World!".to_string(),
        },
    );

    let result = workflow.run();

    assert_eq!(result, "Hello World!");
}
