use flowstate::{RunWorkflow, State, Transition, Workflow, WorkflowState};
use std::ops::ControlFlow;

struct StrContainer<'a> {
    my_str: &'a str,
}

struct StateA<'a>(&'a str);

struct StateB;

enum MyState<'a> {
    A(StateA<'a>),
    B(StateB),
}

impl State<()> for MyState<'_> {
    fn name(&self) -> String {
        match self {
            MyState::A(_) => "workflow_with_lifetime_generics_manual_impls::StateA".to_string(),
            MyState::B(_) => "workflow_with_lifetime_generics_manual_impls::StateB".to_string(),
        }
    }

    fn record_context(&self, _ctx: &mut flowstate::Context<()>) {}
}

struct MyWorkflow<'a> {
    state: MyState<'a>,
    my_str: &'a str,
    my_str_container: StrContainer<'a>,
    message: String,
}

impl<'a> MyWorkflow<'a> {
    fn new(
        state: StateA<'a>,
        my_str: &'a str,
        my_str_container: StrContainer<'a>,
        message: String,
    ) -> Self {
        Self {
            state: MyState::A(state),
            my_str,
            my_str_container,
            message,
        }
    }

    fn transition<R>(self, new_state: MyState<'a>) -> Transition<R, Self> {
        ControlFlow::Continue(MyWorkflow {
            state: new_state,
            my_str: self.my_str,
            my_str_container: self.my_str_container,
            message: self.message,
        })
    }
}

impl<'a> Workflow for MyWorkflow<'a> {
    type ContextValue = ();
    type CurrentState = MyState<'a>;

    fn workflow_name(&self) -> String {
        "MyWorkflow".to_string()
    }

    fn state(&self) -> &MyState<'a> {
        &self.state
    }

    fn record_workflow_context(&self, _ctx: &mut flowstate::Context<Self::ContextValue>) {}
}

impl<'workflow> WorkflowState<WorkflowResult> for MyWorkflow<'workflow> {
    fn next(mut self) -> Transition<WorkflowResult, Self> {
        match self.state {
            MyState::A(StateA(s)) => {
                self.message.push_str(s);
                self.message.push_str(self.my_str);

                self.transition(MyState::B(StateB))
            }
            MyState::B(_) => {
                self.message.push_str(self.my_str_container.my_str);

                self.finish_with(|workflow| WorkflowResult {
                    message: workflow.message,
                })
            }
        }
    }
}

struct WorkflowResult {
    message: String,
}

#[test]
fn workflow_with_lifetime_generics_manual_impls_test_basic_workflow_manual_impls() {
    let workflow = MyWorkflow::new(
        StateA("Hello "),
        "world",
        StrContainer { my_str: "!" },
        String::new(),
    );
    let result = workflow.run();
    assert_eq!(result.message, "Hello world!");
}
