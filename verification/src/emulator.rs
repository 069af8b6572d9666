//! The debugging session around a machine: what the front end asks for, and
//! what a run of the machine does to the session.

pub mod common_state;
pub mod debugger;
pub mod hardware_state;
pub mod vm_state;

pub use common_state::{
    reduce_breakpoint, reduce_common, run_steps, steps_to_run, Action, BreakpointAction,
    CommonAction, CommonState, PerformanceData, RunStatus, SharedState,
};
pub use debugger::{Debugger, Failure, Session};
pub use hardware_state::HardwareState;
pub use vm_state::{VmError, VmState};
