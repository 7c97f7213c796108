//! Handling notifications: keeping the timer going, and seeing to the tasks
//! that have faulted.
use crate::jefe::server::{ServerImpl, ServerView, TIMER_INTERVAL};
use crate::jefe::types::{Disposition, Dumps, TaskStatus};
use crate::procedure::Progress;
use vstd::prelude::*;

verus! {

/// What is outstanding while a notification is handled.
#[derive(Copy, Clone, Debug, PartialEq, Eq)]
pub enum Phase {
    /// Finding out what time it is.
    Clock {
        /// The notifications that came in.
        bits: u32,
    },
    /// Setting the timer.
    SetTimer {
        /// The notifications that came in.
        bits: u32,
    },
    /// Finding out whether a task has faulted.
    Query {
        /// Its index.
        task: usize,
    },
    /// Dumping the memory of a task that has.
    Dump {
        /// The address of the dump areas.
        areas: u32,
        /// Its index.
        task: usize,
    },
    /// Having its memory dumped in the background.
    Queue {
        /// Its index.
        task: usize,
    },
    /// Restarting it.
    Restart {
        /// Its index.
        task: usize,
    },
}

/// What the supervisor can ask for.
#[derive(Copy, Clone, Debug, PartialEq, Eq)]
pub enum KernelRequest {
    /// The time.
    GetTimer,
    /// The timer to go off at `deadline` with the notification `mask`.
    SetTimer {
        /// When.
        deadline: u64,
        /// With what.
        mask: u32,
    },
    /// Whether the task of this index is in a fault.
    ReadTaskStatus(usize),
    /// The memory of a task to be dumped. Whether it can be does not matter.
    DumpTask {
        /// The address of the dump areas.
        areas: u32,
        /// The index of the task.
        task: usize,
    },
    /// The memory of the task of this index to be dumped in the background.
    QueueDump(usize),
    /// The task of this index to be restarted, and to run.
    RestartTask(usize),
}

/// What it is answered.
#[derive(Copy, Clone, Debug, PartialEq, Eq)]
pub enum KernelReply {
    /// The time.
    Now(u64),
    /// Whether the task is in a fault.
    Faulted(bool),
    /// It has been done.
    Done,
}

/// The first task from index `from` on that is not held in a fault is asked
/// about next.
pub open spec fn scan(tasks: Seq<TaskStatus>, from: int) -> Progress<Phase, ()>
    decreases tasks.len() - from,
{
    if from >= tasks.len() {
        Progress::Finished(())
    } else if tasks[from].holding_fault {
        scan(tasks, from + 1)
    } else {
        Progress::Continue(Phase::Query { task: from as usize })
    }
}

impl<R> ServerView<R> {
    /// What comes once the timer has been seen to.
    pub open spec fn after_timer(self, bits: u32) -> Progress<Phase, ()> {
        if bits & self.masks.fault != 0 {
            scan(self.tasks, 0)
        } else {
            Progress::Finished(())
        }
    }

    /// What comes first.
    pub open spec fn notified(self, bits: u32) -> Progress<Phase, ()> {
        if bits & self.masks.timer != 0 {
            Progress::Continue(Phase::Clock { bits })
        } else {
            self.after_timer(bits)
        }
    }

    /// The supervisor once it holds a task in its fault.
    pub open spec fn hold(self, task: int) -> ServerView<R> {
        ServerView {
            tasks: self.tasks.update(
                task,
                TaskStatus { holding_fault: true, ..self.tasks[task] },
            ),
            ..self
        }
    }

    /// What is done to a task that has faulted, once its memory is dumped: as
    /// its disposition says, it is restarted or held.
    pub open spec fn settle(self, task: usize) -> (ServerView<R>, Progress<Phase, ()>) {
        if self.tasks[task as int].disposition == Disposition::Restart {
            (self, Progress::Continue(Phase::Restart { task }))
        } else {
            (self.hold(task as int), scan(self.hold(task as int).tasks, task + 1))
        }
    }

    /// What the supervisor asks for.
    pub open spec fn asks(self, phase: Phase) -> KernelRequest {
        match phase {
            Phase::Clock { .. } => KernelRequest::GetTimer,
            Phase::SetTimer { .. } => KernelRequest::SetTimer {
                deadline: self.deadline,
                mask: self.masks.timer,
            },
            Phase::Query { task } => KernelRequest::ReadTaskStatus(task),
            Phase::Dump { areas, task } => KernelRequest::DumpTask { areas, task },
            Phase::Queue { task } => KernelRequest::QueueDump(task),
            Phase::Restart { task } => KernelRequest::RestartTask(task),
        }
    }

    /// The phases that there are.
    pub open spec fn allows(self, phase: Phase) -> bool {
        match phase {
            Phase::Clock { .. } => true,
            Phase::SetTimer { .. } => true,
            Phase::Query { task } => task < self.tasks.len(),
            Phase::Dump { areas: _, task } => task < self.tasks.len(),
            Phase::Queue { task } => task < self.tasks.len(),
            Phase::Restart { task } => task < self.tasks.len(),
        }
    }

    /// Whether `reply` is an answer to what is asked for. The deadline must
    /// not run past the end of time.
    pub open spec fn accepts(self, phase: Phase, reply: KernelReply) -> bool {
        match phase {
            Phase::Clock { .. } => {
                &&& reply is Now
                &&& reply->Now_0 >= self.deadline ==> self.deadline + TIMER_INTERVAL <= u64::MAX
            },
            Phase::Query { .. } => reply is Faulted,
            _ => reply is Done,
        }
    }

    /// The supervisor once it has been answered, and what comes next.
    pub open spec fn after(self, phase: Phase, reply: KernelReply) -> (
        ServerView<R>,
        Progress<Phase, ()>,
    ) {
        match phase {
            Phase::Clock { bits } => if reply->Now_0 >= self.deadline {
                (
                    ServerView { deadline: (self.deadline + TIMER_INTERVAL) as u64, ..self },
                    Progress::Continue(Phase::SetTimer { bits }),
                )
            } else {
                (self, self.after_timer(bits))
            },
            Phase::SetTimer { bits } => (self, self.after_timer(bits)),
            Phase::Query { task } => if reply == KernelReply::Faulted(true) {
                match self.dumps {
                    Dumps::Off => self.settle(task),
                    Dumps::Direct { areas } => (
                        self,
                        Progress::Continue(Phase::Dump { areas, task }),
                    ),
                    Dumps::Background => (self, Progress::Continue(Phase::Queue { task })),
                }
            } else {
                (self, scan(self.tasks, task + 1))
            },
            Phase::Dump { areas: _, task } => self.settle(task),
            Phase::Queue { task } => (
                self.hold(task as int),
                scan(self.hold(task as int).tasks, task + 1),
            ),
            Phase::Restart { task } => (self, scan(self.tasks, task + 1)),
        }
    }
}

impl<R: Copy> ServerImpl<R> {
    /// Finds the first task from index `from` on that is not held.
    fn scan_from(&self, from: usize) -> (progress: Progress<Phase, ()>)
        requires
            from <= self.task_states@.len(),
        ensures
            progress == scan(self.task_states@, from as int),
            progress matches Progress::Continue(phase) ==> self@.allows(phase),
    {
        let mut i: usize = from;
        while i < self.task_states.len()
            invariant
                from <= i <= self.task_states@.len(),
                scan(self.task_states@, from as int) == scan(self.task_states@, i as int),
            decreases self.task_states@.len() - i,
        {
            if !self.task_states[i].holding_fault {
                return Progress::Continue(Phase::Query { task: i });
            }
            i += 1;
        }
        Progress::Finished(())
    }

    /// Finds the first task behind `task` that is not held.
    fn scan_after(&self, task: usize) -> (progress: Progress<Phase, ()>)
        requires
            task < self.task_states@.len(),
        ensures
            progress == scan(self.task_states@, task + 1),
            progress matches Progress::Continue(phase) ==> self@.allows(phase),
    {
        let count: usize = self.task_states.len();
        assert(task < count);
        self.scan_from(task + 1)
    }

    /// Goes on to the tasks, if one has faulted.
    fn start_scan(&self, bits: u32) -> (progress: Progress<Phase, ()>)
        ensures
            progress == self@.after_timer(bits),
            progress matches Progress::Continue(phase) ==> self@.allows(phase),
    {
        if bits & self.masks.fault != 0 {
            self.scan_from(0)
        } else {
            Progress::Finished(())
        }
    }

    /// Holds a task in its fault and goes on to the next.
    fn hold_and_scan(&mut self, task: usize) -> (progress: Progress<Phase, ()>)
        requires
            task < old(self).task_states@.len(),
        ensures
            final(self)@ == old(self)@.hold(task as int),
            progress == scan(final(self).task_states@, task + 1),
            progress matches Progress::Continue(phase) ==> final(self)@.allows(phase),
    {
        let mut status = self.task_states[task];
        status.holding_fault = true;
        self.task_states.set(task, status);
        self.scan_after(task)
    }

    /// Restarts or holds a task that has faulted.
    fn settle(&mut self, task: usize) -> (progress: Progress<Phase, ()>)
        requires
            task < old(self).task_states@.len(),
        ensures
            (final(self)@, progress) == old(self)@.settle(task),
            progress matches Progress::Continue(phase) ==> final(self)@.allows(phase),
    {
        if self.task_states[task].disposition == Disposition::Restart {
            Progress::Continue(Phase::Restart { task })
        } else {
            self.hold_and_scan(task)
        }
    }

    /// Restarts the client itself, the task of index `sender`.
    pub fn restart_me_raw(&self, sender: usize) -> (request: KernelRequest)
        ensures
            request == KernelRequest::RestartTask(sender),
    {
        KernelRequest::RestartTask(sender)
    }

    /// Starts to handle the notifications `bits`. What a debugger wants of the
    /// tasks is to be seen to beforehand.
    pub fn handle_notification(&self, bits: u32) -> (progress: Progress<Phase, ()>)
        ensures
            progress == self@.notified(bits),
            progress matches Progress::Continue(phase) ==> self@.allows(phase),
    {
        if bits & self.masks.timer != 0 {
            Progress::Continue(Phase::Clock { bits })
        } else {
            self.start_scan(bits)
        }
    }

    /// What to ask for in a phase.
    pub fn request(&self, phase: Phase) -> (request: KernelRequest)
        requires
            self@.allows(phase),
        ensures
            request == self@.asks(phase),
    {
        match phase {
            Phase::Clock { .. } => KernelRequest::GetTimer,
            Phase::SetTimer { .. } => KernelRequest::SetTimer {
                deadline: self.deadline,
                mask: self.masks.timer,
            },
            Phase::Query { task } => KernelRequest::ReadTaskStatus(task),
            Phase::Dump { areas, task } => KernelRequest::DumpTask { areas, task },
            Phase::Queue { task } => KernelRequest::QueueDump(task),
            Phase::Restart { task } => KernelRequest::RestartTask(task),
        }
    }

    /// Takes in the answer to what was asked for.
    pub fn resume(&mut self, phase: Phase, reply: KernelReply) -> (progress: Progress<Phase, ()>)
        requires
            old(self)@.allows(phase),
            old(self)@.accepts(phase, reply),
        ensures
            (final(self)@, progress) == old(self)@.after(phase, reply),
            progress matches Progress::Continue(next) ==> final(self)@.allows(next),
    {
        match (phase, reply) {
            (Phase::Clock { bits }, KernelReply::Now(now)) => {
                // If the timer went off, it needs to be set again.
                if now >= self.deadline {
                    self.deadline = self.deadline + TIMER_INTERVAL;
                    return Progress::Continue(Phase::SetTimer { bits });
                }
                self.start_scan(bits)
            },
            (Phase::SetTimer { bits }, _) => self.start_scan(bits),
            (Phase::Query { task }, KernelReply::Faulted(true)) => match self.dumps {
                Dumps::Off => self.settle(task),
                Dumps::Direct { areas } => Progress::Continue(Phase::Dump { areas, task }),
                Dumps::Background => Progress::Continue(Phase::Queue { task }),
            },
            (Phase::Query { task }, _) => self.scan_after(task),
            (Phase::Dump { areas: _, task }, _) => self.settle(task),
            (Phase::Queue { task }, _) => self.hold_and_scan(task),
            (Phase::Restart { task }, _) => self.scan_after(task),
            _ => Progress::Continue(phase),
        }
    }
}

} // verus!
