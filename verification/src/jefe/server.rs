//! The supervisor itself.
use crate::jefe::types::{Disposition, Dumps, Masks, TaskStatus};
use vstd::prelude::*;

verus! {

/// The time between two looks at what a debugger wants, in ticks of the kernel.
pub const TIMER_INTERVAL: u64 = 100;

/// What the supervisor keeps.
pub struct ServerImpl<R> {
    /// The state of the system, by number.
    pub state: u32,
    /// What is kept of each task, by its index.
    pub task_states: Vec<TaskStatus>,
    /// When the timer goes off.
    pub deadline: u64,
    /// Why the system was reset.
    pub reset_reason: R,
    /// How memory is dumped.
    pub dumps: Dumps,
    /// The notifications that are listened for.
    pub masks: Masks,
    /// The tasks, by index, that are told when the state of the system changes,
    /// and the notifications that they are told with.
    pub mailing_list: Vec<(usize, u32)>,
}

/// The supervisor, seen as a value.
#[verifier::ext_equal]
pub struct ServerView<R> {
    /// The state of the system, by number.
    pub state: u32,
    /// What is kept of each task.
    pub tasks: Seq<TaskStatus>,
    /// When the timer goes off.
    pub deadline: u64,
    /// Why the system was reset.
    pub reset_reason: R,
    /// How memory is dumped.
    pub dumps: Dumps,
    /// The notifications that are listened for.
    pub masks: Masks,
    /// Who is told of changes of state.
    pub mailing_list: Seq<(usize, u32)>,
}

impl<R> View for ServerImpl<R> {
    type V = ServerView<R>;

    open spec fn view(&self) -> ServerView<R> {
        ServerView {
            state: self.state,
            tasks: self.task_states@,
            deadline: self.deadline,
            reset_reason: self.reset_reason,
            dumps: self.dumps,
            masks: self.masks,
            mailing_list: self.mailing_list@,
        }
    }
}

impl<R> ServerView<R> {
    /// Who is told, and with what, when the state of the system is set: all on
    /// the mailing list, in order, if the state changes.
    pub open spec fn posts(self, state: u32) -> Seq<(usize, u32)> {
        if state == self.state {
            Seq::empty()
        } else {
            self.mailing_list
        }
    }
}

/// The tasks at the start: those in `held` are to be held when they fault, the
/// others to be restarted, and none is known to be in a fault.
pub open spec fn initial_tasks(num_tasks: nat, held: Seq<usize>) -> Seq<TaskStatus> {
    Seq::new(
        num_tasks,
        |i: int|
            TaskStatus {
                disposition: if held.contains(i as usize) {
                    Disposition::Hold
                } else {
                    Disposition::Restart
                },
                holding_fault: false,
            },
    )
}

/// At the start a task is to be held if and only if it is among those named, and
/// none is known to be in a fault.
pub proof fn law_held_tasks_are_those_named(num_tasks: nat, held: Seq<usize>)
    requires
        forall|k: int| 0 <= k < held.len() ==> #[trigger] held[k] < num_tasks,
        num_tasks <= usize::MAX,
    ensures
        initial_tasks(num_tasks, held).len() == num_tasks,
        forall|i: int|
            0 <= i < num_tasks ==> {
                &&& (#[trigger] initial_tasks(num_tasks, held)[i]).disposition is Hold <==> exists|
                    k: int,
                | 0 <= k < held.len() && #[trigger] held[k] == i
                &&& !initial_tasks(num_tasks, held)[i].holding_fault
            },
{
    let tasks = initial_tasks(num_tasks, held);
    assert forall|i: int| 0 <= i < num_tasks implies ((#[trigger] tasks[i]).disposition is Hold
        <==> exists|k: int| 0 <= k < held.len() && #[trigger] held[k] == i) by {
        if tasks[i].disposition is Hold {
            let k = choose|k: int| 0 <= k < held.len() && held[k] == i as usize;
            assert(held[k] == i);
        }
        if exists|k: int| 0 <= k < held.len() && #[trigger] held[k] == i {
            let k = choose|k: int| 0 <= k < held.len() && #[trigger] held[k] == i;
            assert(held[k] == i as usize);
        }
    }
}

impl<R: Copy> ServerImpl<R> {
    /// The supervisor as it starts, at time `now`. The timer is to be set to
    /// its deadline.
    pub fn new(
        num_tasks: usize,
        held: &[usize],
        now: u64,
        reset_reason: R,
        dumps: Dumps,
        masks: Masks,
        mailing_list: Vec<(usize, u32)>,
    ) -> (server: ServerImpl<R>)
        requires
            forall|i: int| 0 <= i < held@.len() ==> #[trigger] held@[i] < num_tasks,
            now + TIMER_INTERVAL <= u64::MAX,
        ensures
            server@ == (ServerView {
                state: 0,
                tasks: initial_tasks(num_tasks as nat, held@),
                deadline: (now + TIMER_INTERVAL) as u64,
                reset_reason,
                dumps,
                masks,
                mailing_list: mailing_list@,
            }),
            server.task_states@.len() == num_tasks,
            forall|i: int|
                0 <= i < num_tasks ==> {
                    &&& (#[trigger] server.task_states@[i]).disposition is Hold <==> exists|k: int|
                        0 <= k < held@.len() && #[trigger] held@[k] == i
                    &&& !server.task_states@[i].holding_fault
                },
    {
        let mut task_states: Vec<TaskStatus> = Vec::new();
        let mut i: usize = 0;
        while i < num_tasks
            invariant
                i <= num_tasks,
                task_states@ == initial_tasks(i as nat, Seq::empty()),
            decreases num_tasks - i,
        {
            task_states.push(TaskStatus::default());
            i += 1;
        }
        let mut k: usize = 0;
        assert(held@.take(0) == Seq::<usize>::empty());
        while k < held.len()
            invariant
                k <= held@.len(),
                forall|i: int| 0 <= i < held@.len() ==> #[trigger] held@[i] < num_tasks,
                task_states@ == initial_tasks(num_tasks as nat, held@.take(k as int)),
            decreases held@.len() - k,
        {
            let held_task: usize = held[k];
            let status = TaskStatus { disposition: Disposition::Hold, holding_fault: false };
            task_states.set(held_task, status);
            proof {
                let before = held@.take(k as int);
                let after = held@.take(k + 1);
                assert(after == before.push(held_task));
                assert(after.last() == held_task);
                assert forall|x: usize| after.contains(x) <==> before.contains(x) || x
                    == held_task by {
                    if before.contains(x) {
                        let n = choose|n: int| 0 <= n < before.len() && before[n] == x;
                        assert(after[n] == x);
                    }
                    if after.contains(x) {
                        let n = choose|n: int| 0 <= n < after.len() && after[n] == x;
                        assert(n < k ==> before[n] == x);
                    }
                }
            }
            k += 1;
        }
        assert(held@.take(k as int) == held@);
        proof {
            law_held_tasks_are_those_named(num_tasks as nat, held@);
        }
        ServerImpl {
            state: 0,
            task_states,
            deadline: now + TIMER_INTERVAL,
            reset_reason,
            dumps,
            masks,
            mailing_list,
        }
    }

    /// Why the system was reset.
    pub fn get_reset_reason(&self) -> (reason: R)
        ensures
            reason == self.reset_reason,
    {
        self.reset_reason
    }

    /// Keeps why the system was reset.
    pub fn set_reset_reason(&mut self, reason: R)
        ensures
            final(self)@ == (ServerView { reset_reason: reason, ..old(self)@ }),
    {
        self.reset_reason = reason;
    }

    /// The state of the system.
    pub fn get_state(&self) -> (state: u32)
        ensures
            state == self.state,
    {
        self.state
    }

    /// Sets the state of the system. The tasks to be told of it, and what they
    /// are to be told with, are returned; none if the state is the one already.
    pub fn set_state(&mut self, state: u32) -> (posts: Vec<(usize, u32)>)
        ensures
            final(self)@ == (ServerView { state, ..old(self)@ }),
            posts@ == old(self)@.posts(state),
            state == old(self).state ==> posts@.len() == 0,
            state != old(self).state ==> posts@ == old(self).mailing_list@,
    {
        let mut posts: Vec<(usize, u32)> = Vec::new();
        if self.state != state {
            self.state = state;
            let mut i: usize = 0;
            while i < self.mailing_list.len()
                invariant
                    i <= self.mailing_list@.len(),
                    posts@ == self.mailing_list@.take(i as int),
                decreases self.mailing_list@.len() - i,
            {
                posts.push(self.mailing_list[i]);
                i += 1;
            }
        }
        posts
    }

    /// The notifications that the supervisor listens for.
    pub fn current_notification_mask(&self) -> (mask: u32)
        ensures
            mask == self.masks.fault | self.masks.timer,
    {
        self.masks.fault | self.masks.timer
    }
}

/// The supervisor listens for a notification if and only if it is one of those
/// that it handles.
pub proof fn law_what_is_handled_is_listened_for<R: Copy>(server: ServerImpl<R>, bits: u32)
    ensures
        bits & (server.masks.fault | server.masks.timer) != 0 <==> bits & server.masks.fault != 0
            || bits & server.masks.timer != 0,
{
    let fault = server.masks.fault;
    let timer = server.masks.timer;
    assert(bits & (fault | timer) != 0 <==> bits & fault != 0 || bits & timer != 0) by (bit_vector);
}

} // verus!
