use nand2tetris::emulator::{
    run_steps, Action, BreakpointAction, CommonAction, CommonState, Debugger, Failure, RunStatus,
    Session, VmError,
};
use nand2tetris::error::{LoadError, Span};
use nand2tetris::hardware::{Breakpoint, BreakpointVar, Instruction};
use nand2tetris::vm::LinkError;

fn files(list: &[(&str, &str)]) -> Action {
    Action::FilesPicked(
        list.iter().map(|(name, text)| (name.to_string(), text.to_string())).collect(),
    )
}

#[test]
fn a_new_debugger_runs_the_demonstration_program() {
    let debugger = Debugger::new(50);
    assert_eq!(debugger.shared.desired_steps_per_second, 50);
    assert_eq!(debugger.shared.status(), RunStatus::Stopped);
    assert!(debugger.failure.is_none());
    assert!(matches!(debugger.session, Session::Hardware(_)));
    assert_eq!(debugger.session.hardware().rom[0], Instruction::new(16384));
    assert_eq!(debugger.session.hardware().rom[28], Instruction::new(60039));
    assert!(debugger.session.hardware().breakpoints.is_empty());
}

#[test]
fn quitting_changes_nothing() {
    let mut debugger = Debugger::new(50);
    assert!(debugger.reduce(&Action::Quit));
    assert_eq!(debugger.shared.status(), RunStatus::Stopped);
    assert!(!debugger.reduce(&Action::Common(CommonAction::RunClicked)));
    assert_eq!(debugger.shared.status(), RunStatus::Running);
}

#[test]
fn loading_assembly_replaces_the_program_and_keeps_the_breakpoints() {
    let mut debugger = Debugger::new(50);
    debugger.reduce(&Action::Breakpoint(BreakpointAction::VariableChanged(BreakpointVar::D)));
    debugger.reduce(&Action::Breakpoint(BreakpointAction::ValueChanged(3)));
    debugger.reduce(&Action::Breakpoint(BreakpointAction::AddClicked));
    debugger.reduce(&Action::Common(CommonAction::RunClicked));
    run_steps(&mut debugger.session, &mut debugger.shared, 5, None);
    assert_ne!(debugger.session.hardware().pc, 0);

    let text = "(LOOP)\nD=D+1\n@LOOP\n0;JMP\n".to_string();
    assert!(!debugger.reduce(&Action::FilePicked(text)));
    assert!(debugger.failure.is_none());
    assert_eq!(debugger.shared.status(), RunStatus::Stopped);
    assert_eq!(debugger.session.hardware().pc, 0);
    assert_eq!(debugger.session.hardware().rom[0], Instruction::new(0xe7d0));
    assert_eq!(debugger.session.hardware().rom[3], Instruction::new(0));
    assert_eq!(
        debugger.session.hardware().breakpoints,
        vec![Breakpoint { var: BreakpointVar::D, value: 3 }]
    );
    assert_eq!(
        debugger.session.selected_breakpoint(),
        Breakpoint { var: BreakpointVar::D, value: 3 }
    );

    debugger.reduce(&Action::Common(CommonAction::RunClicked));
    run_steps(&mut debugger.session, &mut debugger.shared, 1_000, None);
    assert_eq!(debugger.shared.status(), RunStatus::Halted);
    assert_eq!(debugger.session.hardware().d, 3);
}

#[test]
fn a_failed_load_leaves_the_running_program() {
    let mut debugger = Debugger::new(50);
    debugger.reduce(&Action::FilePicked("@7\nD=A\n".to_string()));
    debugger.reduce(&Action::Common(CommonAction::RunClicked));
    run_steps(&mut debugger.session, &mut debugger.shared, 1, None);
    debugger.reduce(&Action::Breakpoint(BreakpointAction::AddClicked));

    debugger.reduce(&Action::FilePicked("@7\nD=\n".to_string()));
    assert_eq!(
        debugger.failure,
        Some(Failure::Load(LoadError::Syntax(Span { line: 2, start: 3, end: 5 })))
    );
    assert_eq!(debugger.shared.status(), RunStatus::Running);
    assert_eq!(debugger.session.hardware().rom[0], Instruction::new(7));
    assert_eq!(debugger.session.hardware().a, 7);
    assert_eq!(debugger.session.hardware().pc, 1);
    assert_eq!(debugger.session.hardware().breakpoints.len(), 1);

    debugger.reduce(&files(&[("Main", "push constant 1\ncall Nowhere.f 0\n")]));
    assert_eq!(
        debugger.failure,
        Some(Failure::Vm(VmError::Link(LinkError::UndeclaredFunction { command: 1 })))
    );
    assert!(matches!(debugger.session, Session::Hardware(_)));
    assert_eq!(debugger.session.hardware().pc, 1);

    debugger.reduce(&files(&[("Main", "push constant 1\n"), ("Main", "add\n")]));
    assert_eq!(
        debugger.failure,
        Some(Failure::Vm(VmError::Load { file: 1, error: LoadError::DuplicateFile }))
    );

    // A load that succeeds clears the failure.
    debugger.reduce(&Action::FilePicked("@1\n".to_string()));
    assert!(debugger.failure.is_none());
    assert_eq!(debugger.session.hardware().rom[0], Instruction::new(1));
}

#[test]
fn loading_files_of_the_stack_machine() {
    let mut debugger = Debugger::new(50);
    debugger.reduce(&Action::Breakpoint(BreakpointAction::AddClicked));
    debugger.reduce(&files(&[
        ("Main", "push constant 2\npush constant 3\ncall Math.add 2\nlabel END\ngoto END\n"),
        ("Math", "function Math.add 0\npush argument 0\npush argument 1\nadd\nreturn\n"),
    ]));
    assert!(debugger.failure.is_none());
    debugger.reduce(&Action::Breakpoint(BreakpointAction::RemoveClicked(0)));
    match &debugger.session {
        Session::Vm(state) => {
            assert_eq!(state.program.files().len(), 2);
            assert_eq!(state.program.all_commands().len(), 10);
        }
        Session::Hardware(_) => panic!("no session on the stack machine"),
    }
    debugger.reduce(&Action::Common(CommonAction::RunClicked));
    run_steps(&mut debugger.session, &mut debugger.shared, 10_000, None);
    assert_eq!(debugger.shared.status(), RunStatus::Running);
    assert_eq!(debugger.session.hardware().ram.get(0), 257);
    assert_eq!(debugger.session.hardware().ram.get(256), 5);

    debugger.reduce(&Action::Common(CommonAction::ResetClicked));
    assert_eq!(debugger.shared.status(), RunStatus::Stopped);
    assert_eq!(debugger.session.hardware().ram.get(256), 0);
    assert!(matches!(debugger.session, Session::Vm(_)));

    debugger.reduce(&Action::CloseFile);
    assert!(matches!(debugger.session, Session::Hardware(_)));
    assert_eq!(debugger.session.hardware().rom[0], Instruction::new(16384));
}

#[test]
fn the_session_runs_and_resets_its_machine() {
    let mut session = Session::Hardware(
        nand2tetris::emulator::HardwareState::from_hack_file_contents("@5\nD=A\n").unwrap(),
    );
    assert!(!session.run(2));
    assert_eq!(session.hardware().d, 5);
    session.ram_mut().set_keyboard(3);
    assert_eq!(session.hardware().ram.keyboard(), 3);
    session.reset();
    assert_eq!(session.hardware().d, 0);
    session.reduce_breakpoint(&BreakpointAction::AddClicked);
    assert_eq!(session.hardware().breakpoints.len(), 1);
}
