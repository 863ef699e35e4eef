use flowstate::{RunWorkflow, State, Transition, Workflow, WorkflowState};
use std::ops::ControlFlow;

struct Count(usize);

impl State<()> for Count {
    fn name(&self) -> String {
        format!("Count({})", self.0)
    }

    fn record_context(&self, _ctx: &mut flowstate::Context<()>) {}
}

struct CountLengthOfVecWorkflow {
    state: Count,
    vec: Vec<u8>,
}

impl CountLengthOfVecWorkflow {
    fn new(state: Count, vec: Vec<u8>) -> Self {
        CountLengthOfVecWorkflow { state, vec }
    }
}

impl Workflow for CountLengthOfVecWorkflow {
    type ContextValue = ();
    type CurrentState = Count;

    fn workflow_name(&self) -> String {
        "CountLengthOfVecWorkflow".to_string()
    }

    fn state(&self) -> &Count {
        &self.state
    }

    fn record_workflow_context(&self, _ctx: &mut flowstate::Context<Self::ContextValue>) {}
}

impl WorkflowState<usize> for CountLengthOfVecWorkflow {
    fn next(mut self) -> Transition<usize, Self> {
        let current_count = self.state.0;

        if self.vec.pop().is_some() {
            ControlFlow::Continue(CountLengthOfVecWorkflow {
                state: Count(current_count + 1),
                vec: self.vec,
            })
        } else {
            self.finish(current_count)
        }
    }
}

#[test]
fn test_looping_workflow() {
    let workflow = CountLengthOfVecWorkflow::new(Count(0), vec![1, 2, 3, 4]);

    let result = workflow.run();

    assert_eq!(result, 4);
}
