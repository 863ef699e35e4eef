use flowstate::{RunWorkflow, State, Transition, Workflow, WorkflowState};
use std::ops::ControlFlow;

#[derive(Clone, Copy)]
enum DiskDriveState {
    Opening,
    Open,
    Closing,
    Closed,
}

#[derive(Clone, Copy)]
enum DiskDriveCommand {
    Open,
    Wait,
    #[allow(dead_code)]
    Close,
}

struct DiskDrive {
    history: Vec<(DiskDriveState, DiskDriveCommand)>,
    state: DiskDriveState,
}

impl DiskDrive {
    fn issue_command(&mut self, command: DiskDriveCommand) {
        self.history.push((self.state, command));

        match command {
            DiskDriveCommand::Open => {
                if let DiskDriveState::Closed = self.state {
                    self.state = DiskDriveState::Opening
                }
            }
            DiskDriveCommand::Wait => match self.state {
                DiskDriveState::Opening => self.state = DiskDriveState::Open,
                DiskDriveState::Closing => self.state = DiskDriveState::Closed,
                _ => {}
            },
            DiskDriveCommand::Close => {
                if let DiskDriveState::Open = self.state {
                    self.state = DiskDriveState::Closing
                }
            }
        }
    }
}

enum EjectDiskState {
    ValidateDriveInitialState,
    WaitForDriveClosed,
    OpenDrive,
    WaitForDriveOpen,
}

impl State<()> for EjectDiskState {
    fn name(&self) -> String {
        match self {
            EjectDiskState::ValidateDriveInitialState => "ValidateDriveInitialState",
            EjectDiskState::WaitForDriveClosed => "WaitForDriveClosed",
            EjectDiskState::OpenDrive => "OpenDrive",
            EjectDiskState::WaitForDriveOpen => "WaitForDriveOpen",
        }
        .to_string()
    }

    fn record_context(&self, _ctx: &mut flowstate::Context<()>) {}
}

struct EjectDiskWorkflow {
    state: EjectDiskState,
    drive: DiskDrive,
}

type EjectDiskResult = DiskDrive;

impl EjectDiskWorkflow {
    fn new(state: EjectDiskState, drive: DiskDrive) -> Self {
        EjectDiskWorkflow { state, drive }
    }

    fn transition(self, state: EjectDiskState) -> Transition<EjectDiskResult, Self> {
        ControlFlow::Continue(EjectDiskWorkflow { state, drive: self.drive })
    }
}

impl Workflow for EjectDiskWorkflow {
    type ContextValue = ();
    type CurrentState = EjectDiskState;

    fn workflow_name(&self) -> String {
        "EjectDiskWorkflow".to_string()
    }

    fn state(&self) -> &EjectDiskState {
        &self.state
    }

    fn record_workflow_context(&self, _ctx: &mut flowstate::Context<Self::ContextValue>) {}
}

impl WorkflowState<EjectDiskResult> for EjectDiskWorkflow {
    fn next(mut self) -> Transition<EjectDiskResult, Self> {
        match self.state {
            EjectDiskState::ValidateDriveInitialState => match self.drive.state {
                DiskDriveState::Opening => self.transition(EjectDiskState::WaitForDriveOpen),
                DiskDriveState::Open => self.finish_with(|workflow| workflow.drive),
                DiskDriveState::Closing => self.transition(EjectDiskState::WaitForDriveClosed),
                DiskDriveState::Closed => self.transition(EjectDiskState::OpenDrive),
            },
            EjectDiskState::WaitForDriveClosed => {
                self.drive.issue_command(DiskDriveCommand::Wait);
                self.transition(EjectDiskState::OpenDrive)
            }
            EjectDiskState::OpenDrive => {
                self.drive.issue_command(DiskDriveCommand::Open);
                self.transition(EjectDiskState::WaitForDriveOpen)
            }
            EjectDiskState::WaitForDriveOpen => {
                self.drive.issue_command(DiskDriveCommand::Wait);
                self.finish_with(|workflow| workflow.drive)
            }
        }
    }
}

#[test]
fn test_branching_workflow_1() {
    let drive = DiskDrive {
        state: DiskDriveState::Open,
        history: vec![],
    };
    let workflow = EjectDiskWorkflow::new(EjectDiskState::ValidateDriveInitialState, drive);

    let result = workflow.run();

    assert_eq!(result.history.len(), 0);
    assert!(matches!(result.state, DiskDriveState::Open));
}

#[test]
fn test_branching_workflow_2() {
    let drive = DiskDrive {
        state: DiskDriveState::Closed,
        history: vec![],
    };
    let workflow = EjectDiskWorkflow::new(EjectDiskState::ValidateDriveInitialState, drive);

    let result = workflow.run();

    assert_eq!(result.history.len(), 2);
    assert!(matches!(
        result.history[0],
        (DiskDriveState::Closed, DiskDriveCommand::Open)
    ));
    assert!(matches!(
        result.history[1],
        (DiskDriveState::Opening, DiskDriveCommand::Wait)
    ));
    assert!(matches!(result.state, DiskDriveState::Open));
}

#[test]
fn test_branching_workflow_3() {
    let drive = DiskDrive {
        state: DiskDriveState::Closing,
        history: vec![],
    };
    let workflow = EjectDiskWorkflow::new(EjectDiskState::ValidateDriveInitialState, drive);

    let result = workflow.run();

    assert_eq!(result.history.len(), 3);
    assert!(matches!(
        result.history[0],
        (DiskDriveState::Closing, DiskDriveCommand::Wait)
    ));
    assert!(matches!(
        result.history[1],
        (DiskDriveState::Closed, DiskDriveCommand::Open)
    ));
    assert!(matches!(
        result.history[2],
        (DiskDriveState::Opening, DiskDriveCommand::Wait)
    ));
    assert!(matches!(result.state, DiskDriveState::Open));
}
