use flowstate::{Context, State, Transition, TypedKey, Workflow, WorkflowState};

struct StateA;

impl State<&'static str> for StateA {
    fn name(&self) -> String {
        "workflow_with_middleware_context::StateA".to_string()
    }

    fn record_context(&self, ctx: &mut Context<&'static str>) {
        ctx.insert(TypedKey::new("c.b.a.0"), "first (state)");
        ctx.insert(TypedKey::new("c.b.a.1"), "second (state)");
    }
}

struct BasicWorkflow {
    state: StateA,
}

impl BasicWorkflow {
    fn new(state: StateA) -> Self {
        BasicWorkflow { state }
    }
}

impl Workflow for BasicWorkflow {
    type ContextValue = &'static str;
    type CurrentState = StateA;

    fn workflow_name(&self) -> String {
        "BasicWorkflow".to_string()
    }

    fn state(&self) -> &StateA {
        &self.state
    }

    fn record_workflow_context(&self, ctx: &mut Context<&'static str>) {
        ctx.insert(TypedKey::new("a.b.c.0"), "first (workflow)");
        ctx.insert(TypedKey::new("a.b.c.1"), "second (workflow)");
    }
}

impl WorkflowState<WorkflowResult> for BasicWorkflow {
    fn next(self) -> Transition<WorkflowResult, Self> {
        self.finish(WorkflowResult)
    }
}

struct WorkflowResult;

#[test]
fn workflow_with_middleware_context() {
    let mut workflow_context = Context::default();
    let mut state_context = Context::default();
    let workflow = BasicWorkflow::new(StateA);

    Workflow::record_workflow_context(&workflow, &mut workflow_context);
    WorkflowState::<WorkflowResult>::record_context(&workflow, &mut state_context);

    let workflow_first = workflow_context.get(&TypedKey::new("a.b.c.0"));
    let workflow_second = workflow_context.get(&TypedKey::new("a.b.c.1"));
    let workflow_missing = workflow_context.get(&TypedKey::new("missing.key"));

    let workflow_keys: Vec<&str> = workflow_context.keys().iter().map(|k| k.key()).collect();
    assert_eq!(workflow_keys, vec!["a.b.c.0", "a.b.c.1"]);

    assert_eq!(workflow_first, Some(&"first (workflow)"));
    assert_eq!(workflow_second, Some(&"second (workflow)"));
    assert_eq!(workflow_missing, None);

    let state_first = state_context.get(&TypedKey::new("c.b.a.0"));
    let state_second = state_context.get(&TypedKey::new("c.b.a.1"));
    let state_missing = state_context.get(&TypedKey::new("missing.key"));

    assert_eq!(state_first, Some(&"first (state)"));
    assert_eq!(state_second, Some(&"second (state)"));
    assert_eq!(state_missing, None);
}
