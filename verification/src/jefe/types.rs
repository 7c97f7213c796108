//! The terms of the supervisor.
use vstd::prelude::*;

verus! {

/// What is to be done with a task when it faults.
#[derive(Copy, Clone, Debug, PartialEq, Eq, Structural)]
pub enum Disposition {
    /// It is to be restarted.
    Restart,
    /// It is to be held in its fault.
    Hold,
}

impl Default for Disposition {
    fn default() -> (disposition: Disposition)
        ensures
            disposition == Disposition::Restart,
    {
        Disposition::Restart
    }
}

/// What the supervisor keeps of each task.
#[derive(Copy, Clone, Debug, PartialEq, Eq, Structural)]
pub struct TaskStatus {
    /// What is to be done when it faults.
    pub disposition: Disposition,
    /// It is known to be in a fault and is held there.
    pub holding_fault: bool,
}

impl Default for TaskStatus {
    fn default() -> (status: TaskStatus)
        ensures
            status == (TaskStatus { disposition: Disposition::Restart, holding_fault: false }),
    {
        TaskStatus { disposition: Disposition::Restart, holding_fault: false }
    }
}

/// Whether the memory of tasks that fault is dumped, and by whom. There is at
/// most one way.
#[derive(Copy, Clone, Debug, PartialEq, Eq, Structural)]
pub enum Dumps {
    /// It is not.
    Off,
    /// By the supervisor, at once.
    Direct {
        /// The address of the dump areas.
        areas: u32,
    },
    /// By another task, in the background, while the task that faulted is held.
    Background,
}

/// The notifications that the supervisor listens for.
#[derive(Copy, Clone, Debug, PartialEq, Eq, Structural)]
pub struct Masks {
    /// That a task has faulted.
    pub fault: u32,
    /// That the timer has gone off.
    pub timer: u32,
}

} // verus!
