use nand2tetris::emulator::{
    reduce_common, run_steps, steps_to_run, Action, BreakpointAction, CommonAction, CommonState,
    HardwareState, PerformanceData, RunStatus, SharedState,
};
use nand2tetris::hardware::{Breakpoint, BreakpointVar, Instruction, KEYBOARD};

fn counting() -> HardwareState {
    // (LOOP) D=D+1  @LOOP  0;JMP
    HardwareState::from_hack_file_contents("(LOOP)\nD=D+1\n@LOOP\n0;JMP\n").unwrap()
}

#[test]
fn a_new_session_offers_a_breakpoint_on_the_address_register() {
    let state = counting();
    assert_eq!(state.selected_breakpoint, Breakpoint { var: BreakpointVar::A, value: 0 });
    assert!(state.hardware.breakpoints.is_empty());
    assert_eq!(state.hardware.rom[1], Instruction::new(0));
}

#[test]
fn the_default_session_holds_the_demonstration_program() {
    let state = HardwareState::default();
    let program: [u16; 29] = [
        16384, 60432, 16, 58248, 17, 60040, 24576, 64528, 12, 58114, 17, 61064, 17, 64528, 16,
        65000, 58120, 24576, 60560, 16, 62672, 4, 58115, 16384, 60432, 16, 58248, 4, 60039,
    ];
    for (address, raw) in program.iter().enumerate() {
        assert_eq!(state.hardware.rom[address], Instruction::new(*raw));
    }
    assert_eq!(state.hardware.rom[29], Instruction::new(0));
    assert_eq!((state.hardware.a, state.hardware.d, state.hardware.pc), (0, 0, 0));
    assert_eq!(state.selected_breakpoint, Breakpoint { var: BreakpointVar::A, value: 0 });
}

#[test]
fn requests_change_the_shared_state() {
    let mut state = counting();
    let mut shared = SharedState::new(1000);
    assert_eq!(shared.status(), RunStatus::Stopped);

    reduce_common(&mut state, &mut shared, &CommonAction::RunClicked);
    assert!(shared.run_started);
    assert_eq!(shared.status(), RunStatus::Running);

    reduce_common(&mut state, &mut shared, &CommonAction::PauseClicked);
    assert!(!shared.run_started);
    assert_eq!(shared.status(), RunStatus::Stopped);

    reduce_common(&mut state, &mut shared, &CommonAction::BreakpointsClicked);
    assert!(shared.breakpoints_open);
    reduce_common(&mut state, &mut shared, &CommonAction::BreakpointsClicked);
    assert!(!shared.breakpoints_open);
    reduce_common(&mut state, &mut shared, &CommonAction::BreakpointsClicked);
    reduce_common(&mut state, &mut shared, &CommonAction::BreakpointsClosed);
    assert!(!shared.breakpoints_open);

    reduce_common(&mut state, &mut shared, &CommonAction::SpeedSliderMoved(77));
    assert_eq!(shared.desired_steps_per_second, 77);

    let before = shared;
    reduce_common(&mut state, &mut shared, &CommonAction::StepClicked);
    assert_eq!(shared, before);
}

#[test]
fn reset_stops_the_session_and_resets_the_machine() {
    let mut state = counting();
    let mut shared = SharedState::new(10);
    state.hardware.add_breakpoint(Breakpoint { var: BreakpointVar::D, value: 3 });
    reduce_common(&mut state, &mut shared, &CommonAction::RunClicked);
    run_steps(&mut state, &mut shared, 100, None);
    assert_eq!(shared.status(), RunStatus::Halted);
    assert_eq!(state.hardware.d, 3);

    reduce_common(&mut state, &mut shared, &CommonAction::ResetClicked);
    assert_eq!(shared.status(), RunStatus::Stopped);
    assert_eq!((state.hardware.a, state.hardware.d, state.hardware.pc), (0, 0, 0));
    assert_eq!(state.hardware.breakpoints.len(), 1);
    assert_eq!(state.hardware.rom[0], Instruction::new(0xe7d0));

    let once = (shared, state.hardware.a, state.hardware.d, state.hardware.pc, state.hardware.ram.contents.to_vec());
    reduce_common(&mut state, &mut shared, &CommonAction::ResetClicked);
    let twice = (shared, state.hardware.a, state.hardware.d, state.hardware.pc, state.hardware.ram.contents.to_vec());
    assert_eq!(once, twice);
}

#[test]
fn a_frame_runs_at_most_its_budget() {
    let mut state = counting();
    let mut shared = SharedState::new(10);
    shared.run_started = true;
    run_steps(&mut state, &mut shared, 6, None);
    assert_eq!(state.hardware.d, 2);
    assert_eq!(state.hardware.pc, 0);
    assert!(shared.run_started);
    run_steps(&mut state, &mut shared, 1, None);
    assert_eq!(state.hardware.d, 3);
    assert_eq!(shared.status(), RunStatus::Running);
}

#[test]
fn a_frame_without_budget_changes_nothing() {
    let mut state = counting();
    let mut shared = SharedState::new(10);
    state.hardware.ram.set_keyboard(5);
    run_steps(&mut state, &mut shared, 0, Some(65));
    assert_eq!(state.hardware.ram.keyboard(), 5);
    assert_eq!(state.hardware.pc, 0);
}

#[test]
fn a_frame_sets_the_keyboard_word() {
    let mut state = counting();
    let mut shared = SharedState::new(10);
    run_steps(&mut state, &mut shared, 1, Some(32));
    assert_eq!(state.hardware.ram.get(KEYBOARD), 32);
    run_steps(&mut state, &mut shared, 1, None);
    assert_eq!(state.hardware.ram.get(KEYBOARD), 0);
}

#[test]
fn a_halt_halts_the_session() {
    // @1  0;JMP
    let mut state = HardwareState::from_hack_file_contents("@1\n0;JMP\n").unwrap();
    let mut shared = SharedState::new(10);
    reduce_common(&mut state, &mut shared, &CommonAction::RunClicked);
    run_steps(&mut state, &mut shared, 1, None);
    assert_eq!(shared.status(), RunStatus::Running);
    run_steps(&mut state, &mut shared, 50, None);
    assert_eq!(shared.status(), RunStatus::Halted);
    assert!(!shared.run_started);
    reduce_common(&mut state, &mut shared, &CommonAction::PauseClicked);
    assert_eq!(shared.status(), RunStatus::Halted);
    reduce_common(&mut state, &mut shared, &CommonAction::RunClicked);
    assert_eq!(shared.status(), RunStatus::Running);
}

#[test]
fn the_state_trait_runs_and_resets_the_machine() {
    let mut state = counting();
    assert!(!CommonState::run(&mut state, 4));
    assert_eq!(state.hardware.d, 2);
    state.ram_mut().set_keyboard(9);
    assert_eq!(state.hardware.ram.keyboard(), 9);
    CommonState::reset(&mut state);
    assert_eq!(state.hardware.d, 0);
    assert_eq!(state.hardware.ram.keyboard(), 0);
}

#[test]
fn breakpoint_requests_edit_and_register_breakpoints() {
    let mut state = counting();
    state.reduce_breakpoint(&BreakpointAction::VariableChanged(BreakpointVar::RAM(7)));
    state.reduce_breakpoint(&BreakpointAction::ValueChanged(-4));
    assert_eq!(state.selected_breakpoint, Breakpoint { var: BreakpointVar::RAM(7), value: -4 });
    state.reduce_breakpoint(&BreakpointAction::AddClicked);
    state.reduce_breakpoint(&BreakpointAction::VariableChanged(BreakpointVar::PC));
    state.reduce_breakpoint(&BreakpointAction::AddClicked);
    assert_eq!(
        state.hardware.breakpoints,
        vec![
            Breakpoint { var: BreakpointVar::RAM(7), value: -4 },
            Breakpoint { var: BreakpointVar::PC, value: -4 },
        ]
    );
    state.reduce_breakpoint(&BreakpointAction::RemoveClicked(2));
    assert_eq!(state.hardware.breakpoints.len(), 2);
    state.reduce_breakpoint(&BreakpointAction::RemoveClicked(0));
    assert_eq!(state.hardware.breakpoints, vec![Breakpoint { var: BreakpointVar::PC, value: -4 }]);
}

fn pace(shared: &SharedState, data: &mut PerformanceData, frame: u64, now: u64, action: &Option<Action>) -> u64 {
    steps_to_run(shared.desired_steps_per_second, frame, now, data, shared, action)
}

#[test]
fn a_stopped_session_steps_only_when_asked() {
    let shared = SharedState::new(1000);
    let mut data = PerformanceData::default();
    let step = Some(Action::Common(CommonAction::StepClicked));
    assert_eq!(pace(&shared, &mut data, 16_000, 5, &step), 1);
    assert_eq!(pace(&shared, &mut data, 16_000, 6, &None), 0);
    assert_eq!(pace(&shared, &mut data, 16_000, 7, &Some(Action::Quit)), 0);
    assert_eq!(
        pace(&shared, &mut data, 16_000, 8, &Some(Action::Common(CommonAction::RunClicked))),
        0
    );
    assert_eq!(
        data,
        PerformanceData {
            steps_during_last_frame: 0,
            total_steps: 0,
            run_start: None,
            previous_desired_steps_per_second: 1000,
        }
    );
}

#[test]
fn a_running_session_keeps_to_its_rate() {
    let mut shared = SharedState::new(1000);
    shared.run_started = true;
    let mut data = PerformanceData::default();
    // The run starts with the first frame: no time has passed.
    assert_eq!(pace(&shared, &mut data, 16_000, 1_000_000, &None), 0);
    assert_eq!(data.run_start, Some(1_000_000));
    // Half a second later, 500 steps are due.
    assert_eq!(pace(&shared, &mut data, 16_000, 1_500_000, &None), 500);
    assert_eq!(data.total_steps, 500);
    assert_eq!(data.steps_during_last_frame, 500);
    // 2.5 ms later 2 steps are due; the limit of the last frame is far above.
    assert_eq!(pace(&shared, &mut data, 16_000, 1_502_500, &None), 2);
    assert_eq!(data.total_steps, 502);
    assert_eq!(data.actual_steps_per_second(1_502_500), Some(999));
    assert_eq!(data.actual_steps_per_second(1_000_000), None);
}

#[test]
fn the_rate_shown_is_rounded_to_the_nearest() {
    let data = |total_steps| PerformanceData {
        steps_during_last_frame: 0,
        total_steps,
        run_start: Some(0),
        previous_desired_steps_per_second: 0,
    };
    assert_eq!(data(3).actual_steps_per_second(2_000_000), Some(2));
    assert_eq!(data(5).actual_steps_per_second(4_000_000), Some(1));
    assert_eq!(data(7).actual_steps_per_second(4_000_000), Some(2));
    assert_eq!(data(1).actual_steps_per_second(3_000_000), Some(0));
    assert_eq!(data(0).actual_steps_per_second(1), Some(0));
    assert_eq!(data(u64::MAX).actual_steps_per_second(1), Some(u64::MAX));
    assert_eq!(data(u64::MAX).actual_steps_per_second(u64::MAX), Some(1_000_000));
    assert_eq!(data(3).actual_steps_per_second(0), None);
    assert_eq!(PerformanceData::default().actual_steps_per_second(5), None);
}

#[test]
fn a_slow_frame_limits_the_next() {
    let mut shared = SharedState::new(1_000_000);
    shared.run_started = true;
    let mut data = PerformanceData {
        steps_during_last_frame: 600,
        total_steps: 600,
        run_start: Some(0),
        previous_desired_steps_per_second: 1_000_000,
    };
    // 1 s in, 1_000_000 steps are due, but the last frame took 100 ms for
    // 600 steps: 600 * 1_000_000 / (100_000 * 60) = 100 fit a frame.
    assert_eq!(pace(&shared, &mut data, 100_000, 1_000_000, &None), 100);
    assert_eq!(data.total_steps, 700);
    assert_eq!(data.steps_during_last_frame, 100);
}

#[test]
fn a_change_of_rate_starts_the_count_anew() {
    let mut shared = SharedState::new(1000);
    shared.run_started = true;
    let mut data = PerformanceData {
        steps_during_last_frame: 5,
        total_steps: 900,
        run_start: Some(0),
        previous_desired_steps_per_second: 500,
    };
    assert_eq!(pace(&shared, &mut data, 16_000, 2_000_000, &None), 0);
    assert_eq!(
        data,
        PerformanceData {
            steps_during_last_frame: 0,
            total_steps: 0,
            run_start: Some(2_000_000),
            previous_desired_steps_per_second: 1000,
        }
    );
}

#[test]
fn a_clock_that_runs_backwards_asks_for_no_steps() {
    let mut shared = SharedState::new(1000);
    shared.run_started = true;
    let mut data = PerformanceData {
        steps_during_last_frame: 0,
        total_steps: 10,
        run_start: Some(5_000_000),
        previous_desired_steps_per_second: 1000,
    };
    assert_eq!(pace(&shared, &mut data, 16_000, 4_000_000, &None), 0);
    assert_eq!(data.total_steps, 10);
}

#[test]
fn the_largest_values_do_not_overflow() {
    let mut shared = SharedState::new(u64::MAX);
    shared.run_started = true;
    let mut data = PerformanceData {
        steps_during_last_frame: u64::MAX,
        total_steps: 0,
        run_start: Some(0),
        previous_desired_steps_per_second: u64::MAX,
    };
    assert_eq!(pace(&shared, &mut data, 1, u64::MAX, &None), u64::MAX);
    assert_eq!(data.total_steps, u64::MAX);
    assert_eq!(pace(&shared, &mut data, u64::MAX, u64::MAX, &None), 0);
}

#[test]
fn the_shared_state_after_each_request() {
    let stopped = SharedState::new(5);
    let running = stopped.reduce(CommonAction::RunClicked);
    assert_eq!(running.status(), RunStatus::Running);
    assert_eq!(running.reduce(CommonAction::PauseClicked).status(), RunStatus::Stopped);
    assert_eq!(running.reduce(CommonAction::ResetClicked).status(), RunStatus::Stopped);
    assert_eq!(running.reduce(CommonAction::StepClicked), running);
    let mut halted = stopped;
    halted.halted = true;
    assert_eq!(halted.status(), RunStatus::Halted);
    assert_eq!(halted.reduce(CommonAction::PauseClicked).status(), RunStatus::Halted);
    assert_eq!(halted.reduce(CommonAction::ResetClicked).status(), RunStatus::Stopped);
    assert_eq!(halted.reduce(CommonAction::RunClicked).status(), RunStatus::Running);
    assert_eq!(stopped.reduce(CommonAction::SpeedSliderMoved(9)).desired_steps_per_second, 9);
    assert!(stopped.reduce(CommonAction::BreakpointsClicked).breakpoints_open);
    assert!(!stopped
        .reduce(CommonAction::BreakpointsClicked)
        .reduce(CommonAction::BreakpointsClosed)
        .breakpoints_open);
}

#[test]
fn a_session_on_a_given_machine() {
    let hardware = nand2tetris::hardware::Hardware::with_program(vec![Instruction::new(3)]).unwrap();
    let mut state = HardwareState::new(hardware);
    assert_eq!(state.selected_breakpoint, Breakpoint { var: BreakpointVar::A, value: 0 });
    assert!(!CommonState::run(&mut state, 1));
    assert_eq!(state.hardware.a, 3);
    assert!(nand2tetris::hardware::Hardware::with_program(vec![Instruction::new(3); 32769]).is_err());
}
