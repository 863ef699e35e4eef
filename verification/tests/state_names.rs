use flowstate::{State, Transition, Workflow, WorkflowState};
use std::ops::ControlFlow;

struct StateA;

impl State<()> for StateA {
    fn name(&self) -> String {
        "state_names::StateA".to_string()
    }

    fn record_context(&self, _ctx: &mut flowstate::Context<()>) {}
}

struct StateB;

impl State<()> for StateB {
    fn name(&self) -> String {
        "This is state B!".into()
    }

    fn record_context(&self, _ctx: &mut flowstate::Context<()>) {}
}

struct StateC {
    random_number: u16,
}

impl State<()> for StateC {
    fn name(&self) -> String {
        format!("state_names::StateC({})", self.random_number)
    }

    fn record_context(&self, _ctx: &mut flowstate::Context<()>) {}
}

struct StateD;

impl State<()> for StateD {
    fn name(&self) -> String {
        "state_names::StateD".to_string()
    }

    fn record_context(&self, _ctx: &mut flowstate::Context<()>) {}
}

enum MyState {
    A(StateA),
    B(StateB),
    C(StateC),
    D(StateD),
}

impl From<StateA> for MyState {
    fn from(s: StateA) -> Self {
        MyState::A(s)
    }
}

impl From<StateB> for MyState {
    fn from(s: StateB) -> Self {
        MyState::B(s)
    }
}

impl From<StateC> for MyState {
    fn from(s: StateC) -> Self {
        MyState::C(s)
    }
}

impl From<StateD> for MyState {
    fn from(s: StateD) -> Self {
        MyState::D(s)
    }
}

impl State<()> for MyState {
    fn name(&self) -> String {
        match self {
            MyState::A(s) => s.name(),
            MyState::B(s) => s.name(),
            MyState::C(s) => s.name(),
            MyState::D(s) => s.name(),
        }
    }

    fn record_context(&self, _ctx: &mut flowstate::Context<()>) {}
}

struct MyWorkflow {
    state: MyState,
    ctx: String,
}

impl MyWorkflow {
    fn new(state: impl Into<MyState>, ctx: String) -> Self {
        MyWorkflow { state: state.into(), ctx }
    }

    fn transition(self, state: impl Into<MyState>) -> Transition<MyWorkflowResult, Self> {
        ControlFlow::Continue(MyWorkflow { state: state.into(), ctx: self.ctx })
    }
}

impl Workflow for MyWorkflow {
    type ContextValue = ();
    type CurrentState = MyState;

    fn workflow_name(&self) -> String {
        "MyWorkflow".to_string()
    }

    fn state(&self) -> &MyState {
        &self.state
    }

    fn record_workflow_context(&self, _ctx: &mut flowstate::Context<Self::ContextValue>) {}
}

impl WorkflowState<MyWorkflowResult> for MyWorkflow {
    fn name(&self) -> String {
        match &self.state {
            MyState::D(state) => format!("{} (ctx = {})", state.name(), self.ctx),
            state => state.name(),
        }
    }

    fn next(self) -> Transition<MyWorkflowResult, Self> {
        match self.state {
            MyState::A(_) => self.transition(StateB),
            MyState::B(_) => self.transition(StateC { random_number: 32 }),
            MyState::C(_) => self.transition(StateD),
            MyState::D(_) => self.transition(StateB),
        }
    }
}

type MyWorkflowResult = ();

#[test]
fn test_state_names_1() {
    let state_a_name = MyWorkflow::new(StateA, "ctx".into()).name();

    assert_eq!(state_a_name, "state_names::StateA");
}

#[test]
fn test_state_names_2() {
    let state_a_name = MyWorkflow::new(StateB, "ctx".into()).name();

    assert_eq!(state_a_name, "This is state B!");
}

#[test]
fn test_state_names_3() {
    let state_a_name = MyWorkflow::new(StateC { random_number: 42 }, "ctx".into()).name();

    assert_eq!(state_a_name, "state_names::StateC(42)");
}

#[test]
fn test_state_names_4() {
    let state_a_name = MyWorkflow::new(StateD, "some context".into()).name();

    assert_eq!(state_a_name, "state_names::StateD (ctx = some context)");
}
