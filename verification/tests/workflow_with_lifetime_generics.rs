use flowstate::{RunWorkflow, State, Transition, Workflow, WorkflowState};
use std::ops::ControlFlow;

struct StrContainer<'a> {
    my_str: &'a str,
}

struct StateA<'a, const N: usize, T>(&'a T)
where
    T: AsRef<str>;

struct StateB<'a, const N: usize, T>(#[allow(unused)] &'a T);

enum MyState<'a, const N: usize, T: AsRef<str>> {
    A(StateA<'a, N, T>),
    B(StateB<'a, N, T>),
}

impl<'a, const N: usize, T: AsRef<str>> State<()> for MyState<'a, N, T> {
    fn name(&self) -> String {
        match self {
            MyState::A(_) => "StateA".to_string(),
            MyState::B(_) => "StateB".to_string(),
        }
    }

    fn record_context(&self, _ctx: &mut flowstate::Context<()>) {}
}

struct MyWorkflow<'workflow, const N: usize, T: AsRef<str>> {
    state: MyState<'workflow, N, T>,
    my_str: &'workflow str,
    my_str_container: StrContainer<'workflow>,
    message: String,
}

struct WorkflowResult {
    message: String,
}

impl<'workflow, const N: usize, T: AsRef<str>> MyWorkflow<'workflow, N, T> {
    fn new(
        state: StateA<'workflow, N, T>,
        my_str: &'workflow str,
        my_str_container: StrContainer<'workflow>,
        message: String,
    ) -> Self {
        MyWorkflow {
            state: MyState::A(state),
            my_str,
            my_str_container,
            message,
        }
    }

    fn transition_with(
        self,
        map_fn: impl FnOnce(MyState<'workflow, N, T>) -> MyState<'workflow, N, T>,
    ) -> Transition<WorkflowResult, Self> {
        ControlFlow::Continue(MyWorkflow {
            state: map_fn(self.state),
            my_str: self.my_str,
            my_str_container: self.my_str_container,
            message: self.message,
        })
    }
}

impl<'workflow, const N: usize, T: AsRef<str>> Workflow for MyWorkflow<'workflow, N, T> {
    type ContextValue = ();
    type CurrentState = MyState<'workflow, N, T>;

    fn workflow_name(&self) -> String {
        "MyWorkflow".to_string()
    }

    fn state(&self) -> &MyState<'workflow, N, T> {
        &self.state
    }

    fn record_workflow_context(&self, _ctx: &mut flowstate::Context<Self::ContextValue>) {}
}

impl<'workflow, const N: usize, T: AsRef<str>> WorkflowState<WorkflowResult>
    for MyWorkflow<'workflow, N, T>
{
    fn next(mut self) -> Transition<WorkflowResult, Self> {
        match &self.state {
            MyState::A(state) => {
                self.message.push_str(state.0.as_ref());
                self.message.push_str(self.my_str);

                self.transition_with(|state| match state {
                    MyState::A(StateA(inner)) => MyState::B(StateB::<N, _>(inner)),
                    other => other,
                })
            }
            MyState::B(_) => {
                self.message.push_str(self.my_str_container.my_str);

                self.finish_with(|workflow| WorkflowResult {
                    message: workflow.message,
                })
            }
        }
    }
}

#[test]
fn workflow_with_lifetime_generics_test_basic_workflow_manual_impls() {
    let message = "Hello ".to_string();
    let workflow = MyWorkflow::new(
        StateA::<0, _>(&message),
        "world",
        StrContainer { my_str: "!" },
        String::new(),
    );
    let result = workflow.run();
    assert_eq!(result.message, "Hello world!");
}
