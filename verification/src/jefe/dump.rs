//! The calls that have to do with dumps of the memory of tasks.
use crate::api::{ClientError, RequestError};
use crate::jefe::server::{ServerImpl, ServerView};
use crate::jefe::types::{Disposition, Dumps, TaskStatus};
use vstd::prelude::*;

verus! {

/// Why a dump call is refused before the dump agent is asked.
#[derive(Clone, Copy, Debug, PartialEq, Eq, Structural)]
pub enum DumpAgentError {
    /// The supervisor cannot be dumped.
    NotSupported,
    /// There is no such task.
    BadOffset,
    /// There is no dump agent.
    DumpAgentUnsupported,
}

/// What is to be asked of the dump agent.
#[derive(Clone, Copy, Debug, PartialEq, Eq)]
pub enum DumpCall {
    /// A dump area.
    GetArea {
        /// The address of the dump areas.
        areas: u32,
        /// The index of the one asked for.
        index: u8,
    },
    /// A dump area to be set apart.
    ClaimArea {
        /// The address of the dump areas.
        areas: u32,
    },
    /// The dump areas to be set up anew. The address that they are at
    /// thereafter is to be kept.
    InitializeAreas,
    /// The memory of a task to be dumped.
    DumpTask {
        /// The address of the dump areas.
        areas: u32,
        /// The index of the task.
        task: usize,
    },
    /// A part of the memory of a task to be dumped.
    DumpTaskRegion {
        /// The address of the dump areas.
        areas: u32,
        /// The index of the task.
        task: usize,
        /// Where the part begins.
        address: u32,
        /// How long it is.
        length: u32,
    },
    /// The dump areas from one on to be set up anew.
    ReinitializeFrom {
        /// The address of the dump areas.
        areas: u32,
        /// The index of the first.
        index: u8,
    },
}

/// A refusal by the supervisor.
pub open spec fn refused(error: DumpAgentError) -> Result<DumpCall, RequestError<DumpAgentError>> {
    Err(RequestError::Runtime(error))
}

impl<R> ServerView<R> {
    /// The task that a client means by a number, if its memory can be dumped:
    /// it is not the supervisor, which is the first task, and it exists.
    pub open spec fn dumpable(self, task_index: u32) -> Result<usize, DumpAgentError> {
        if task_index == 0 {
            Err(DumpAgentError::NotSupported)
        } else if task_index >= self.tasks.len() {
            Err(DumpAgentError::BadOffset)
        } else {
            Ok(task_index as usize)
        }
    }

    /// The supervisor once the background dump of a task is done, and the task
    /// to be restarted, if it is to be: such a task is held no longer. Without
    /// background dumps, and of a task that does not exist, no dump can be done.
    pub open spec fn dumped(self, task: u32) -> (ServerView<R>, Result<Option<usize>, ClientError>) {
        if !(self.dumps is Background) || task >= self.tasks.len() {
            (self, Err(ClientError::BadMessageContents))
        } else if self.tasks[task as int].disposition == Disposition::Restart {
            (
                ServerView {
                    tasks: self.tasks.update(
                        task as int,
                        TaskStatus { holding_fault: false, ..self.tasks[task as int] },
                    ),
                    ..self
                },
                Ok(Some(task as usize)),
            )
        } else {
            (self, Ok(None))
        }
    }
}

impl<R: Copy> ServerImpl<R> {
    /// Looks up the task that a client wants dumped.
    fn dumpable_task(&self, task_index: u32) -> (task: Result<usize, DumpAgentError>)
        ensures
            task == self@.dumpable(task_index),
    {
        if task_index == 0 {
            // The supervisor cannot be dumped.
            return Err(DumpAgentError::NotSupported);
        } else if task_index as usize >= self.task_states.len() {
            // Nor can a task that does not exist.
            return Err(DumpAgentError::BadOffset);
        }
        Ok(task_index as usize)
    }

    /// Looks up a dump area.
    pub fn get_dump_area(&self, index: u8) -> (call: Result<DumpCall, RequestError<DumpAgentError>>)
        ensures
            call == match self.dumps {
                Dumps::Direct { areas } => Ok(DumpCall::GetArea { areas, index }),
                _ => refused(DumpAgentError::DumpAgentUnsupported),
            },
    {
        match self.dumps {
            Dumps::Direct { areas } => Ok(DumpCall::GetArea { areas, index }),
            _ => Err(RequestError::Runtime(DumpAgentError::DumpAgentUnsupported)),
        }
    }

    /// Sets a dump area apart.
    pub fn claim_dump_area(&self) -> (call: Result<DumpCall, RequestError<DumpAgentError>>)
        ensures
            call == match self.dumps {
                Dumps::Direct { areas } => Ok(DumpCall::ClaimArea { areas }),
                _ => refused(DumpAgentError::DumpAgentUnsupported),
            },
    {
        match self.dumps {
            Dumps::Direct { areas } => Ok(DumpCall::ClaimArea { areas }),
            _ => Err(RequestError::Runtime(DumpAgentError::DumpAgentUnsupported)),
        }
    }

    /// Sets the dump areas up anew.
    pub fn reinitialize_dump_areas(&self) -> (call: Result<DumpCall, RequestError<DumpAgentError>>)
        ensures
            call == match self.dumps {
                Dumps::Direct { .. } => Ok(DumpCall::InitializeAreas),
                _ => refused(DumpAgentError::DumpAgentUnsupported),
            },
    {
        match self.dumps {
            Dumps::Direct { .. } => Ok(DumpCall::InitializeAreas),
            _ => Err(RequestError::Runtime(DumpAgentError::DumpAgentUnsupported)),
        }
    }

    /// Keeps where the dump areas are, once they have been set up anew.
    pub fn keep_dump_areas(&mut self, areas: u32)
        requires
            old(self).dumps is Direct,
        ensures
            final(self)@ == (ServerView { dumps: Dumps::Direct { areas }, ..old(self)@ }),
    {
        self.dumps = Dumps::Direct { areas };
    }

    /// Dumps the memory of a task.
    pub fn dump_task(&self, task_index: u32) -> (call: Result<
        DumpCall,
        RequestError<DumpAgentError>,
    >)
        ensures
            call == match (self.dumps, self@.dumpable(task_index)) {
                (Dumps::Direct { areas }, Ok(task)) => Ok(DumpCall::DumpTask { areas, task }),
                (Dumps::Direct { .. }, Err(error)) => refused(error),
                _ => refused(DumpAgentError::DumpAgentUnsupported),
            },
    {
        match self.dumps {
            Dumps::Direct { areas } => match self.dumpable_task(task_index) {
                Ok(task) => Ok(DumpCall::DumpTask { areas, task }),
                Err(error) => Err(RequestError::Runtime(error)),
            },
            _ => Err(RequestError::Runtime(DumpAgentError::DumpAgentUnsupported)),
        }
    }

    /// Dumps a part of the memory of a task.
    pub fn dump_task_region(&self, task_index: u32, address: u32, length: u32) -> (call: Result<
        DumpCall,
        RequestError<DumpAgentError>,
    >)
        ensures
            call == match (self.dumps, self@.dumpable(task_index)) {
                (Dumps::Direct { areas }, Ok(task)) => Ok(
                    DumpCall::DumpTaskRegion { areas, task, address, length },
                ),
                (Dumps::Direct { .. }, Err(error)) => refused(error),
                _ => refused(DumpAgentError::DumpAgentUnsupported),
            },
    {
        match self.dumps {
            Dumps::Direct { areas } => match self.dumpable_task(task_index) {
                Ok(task) => Ok(DumpCall::DumpTaskRegion { areas, task, address, length }),
                Err(error) => Err(RequestError::Runtime(error)),
            },
            _ => Err(RequestError::Runtime(DumpAgentError::DumpAgentUnsupported)),
        }
    }

    /// Sets the dump areas up anew, from one on.
    pub fn reinitialize_dump_from(&self, index: u8) -> (call: Result<
        DumpCall,
        RequestError<DumpAgentError>,
    >)
        ensures
            call == match self.dumps {
                Dumps::Direct { areas } => Ok(DumpCall::ReinitializeFrom { areas, index }),
                _ => refused(DumpAgentError::DumpAgentUnsupported),
            },
    {
        match self.dumps {
            Dumps::Direct { areas } => Ok(DumpCall::ReinitializeFrom { areas, index }),
            _ => Err(RequestError::Runtime(DumpAgentError::DumpAgentUnsupported)),
        }
    }

    /// Whether a client may be told which task to dump in the background; the
    /// dump queue knows which.
    pub fn get_background_dump_task(&self) -> (result: Result<(), ClientError>)
        ensures
            result == if self.dumps is Background {
                Ok(())
            } else {
                Err(ClientError::BadMessageContents)
            },
    {
        match self.dumps {
            Dumps::Background => Ok(()),
            _ => Err(ClientError::BadMessageContents),
        }
    }

    /// Takes note that a background dump is done. If the task is to be
    /// restarted it is held no longer, and its index is returned so that it be
    /// restarted. The dump queue is to be told thereafter.
    pub fn finish_background_dump(&mut self, task: u32) -> (restart: Result<
        Option<usize>,
        ClientError,
    >)
        ensures
            (final(self)@, restart) == old(self)@.dumped(task),
    {
        match self.dumps {
            Dumps::Background => {},
            _ => {
                return Err(ClientError::BadMessageContents);
            },
        }
        let index: usize = task as usize;
        if index >= self.task_states.len() {
            return Err(ClientError::BadMessageContents);
        }
        let mut status = self.task_states[index];
        if status.disposition == Disposition::Restart {
            status.holding_fault = false;
            self.task_states.set(index, status);
            return Ok(Some(index));
        }
        Ok(None)
    }
}

/// A task can be dumped at the request of a client if and only if it exists and
/// is not the supervisor.
pub proof fn law_other_tasks_can_be_dumped<R>(v: ServerView<R>, task_index: u32)
    ensures
        v.dumpable(task_index) is Ok <==> 0 < task_index < v.tasks.len(),
        v.dumpable(task_index) matches Ok(task) ==> task == task_index,
{
}

} // verus!
