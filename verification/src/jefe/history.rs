//! What becomes of the supervisor over any number of calls and notifications.
use crate::jefe::laws::handled;
use crate::jefe::notification::{scan, KernelReply, Phase};
use crate::jefe::server::ServerView;
use crate::jefe::types::{Dumps, TaskStatus};
use crate::procedure::Progress;
use vstd::prelude::*;

verus! {

/// What can happen to the supervisor. The calls that only look at it are left
/// out.
pub enum Event<R> {
    /// The state of the system is set.
    StateSet(u32),
    /// The reason of the reset is set.
    ReasonSet(R),
    /// The background dump of a task is done.
    DumpFinished(u32),
    /// The dump areas are set up anew, at this address.
    AreasMoved(u32),
    /// A debugger has had its way with the tasks.
    Debugged(Seq<TaskStatus>),
    /// Notifications are handled, with these replies.
    Notified {
        /// The notifications.
        bits: u32,
        /// The replies, in order.
        replies: Seq<KernelReply>,
    },
}

impl<R> ServerView<R> {
    /// The supervisor after an event.
    pub open spec fn meets(self, event: Event<R>) -> ServerView<R> {
        match event {
            Event::StateSet(state) => ServerView { state, ..self },
            Event::ReasonSet(reset_reason) => ServerView { reset_reason, ..self },
            Event::DumpFinished(task) => self.dumped(task).0,
            Event::AreasMoved(areas) => ServerView { dumps: Dumps::Direct { areas }, ..self },
            Event::Debugged(tasks) => ServerView { tasks, ..self },
            Event::Notified { bits, replies } => handled(self, self.notified(bits), replies, 0).0,
        }
    }

    /// The supervisor after some events, one after the other.
    pub open spec fn meets_all(self, events: Seq<Event<R>>) -> ServerView<R>
        decreases events.len(),
    {
        if events.len() == 0 {
            self
        } else {
            self.meets_all(events.drop_last()).meets(events.last())
        }
    }
}

/// The state that was set last in the course of some events, or `start` if none
/// was.
pub open spec fn last_state<R>(start: u32, events: Seq<Event<R>>) -> u32
    decreases events.len(),
{
    if events.len() == 0 {
        start
    } else {
        match events.last() {
            Event::StateSet(state) => state,
            _ => last_state(start, events.drop_last()),
        }
    }
}

/// The reason of the reset that was set last in the course of some events, or
/// `start` if none was.
pub open spec fn last_reason<R>(start: R, events: Seq<Event<R>>) -> R
    decreases events.len(),
{
    if events.len() == 0 {
        start
    } else {
        match events.last() {
            Event::ReasonSet(reason) => reason,
            _ => last_reason(start, events.drop_last()),
        }
    }
}

proof fn lemma_handling_keeps<R>(
    v: ServerView<R>,
    progress: Progress<Phase, ()>,
    replies: Seq<KernelReply>,
    at: int,
)
    ensures
        ({
            let after = handled(v, progress, replies, at).0;
            after == ServerView { tasks: after.tasks, deadline: after.deadline, ..v }
        }),
    decreases replies.len() - at,
{
    if let Progress::Continue(phase) = progress {
        if at < replies.len() {
            let (next_v, next) = v.after(phase, replies[at]);
            lemma_handling_keeps(next_v, next, replies, at + 1);
        }
    }
}

proof fn lemma_scan_finds_a_task(tasks: Seq<TaskStatus>, from: int)
    requires
        0 <= from,
        tasks.len() <= usize::MAX,
    ensures
        scan(tasks, from) matches Progress::Continue(phase) ==> phase matches Phase::Query { task }
            && task < tasks.len(),
    decreases tasks.len() - from,
{
    if from < tasks.len() {
        lemma_scan_finds_a_task(tasks, from + 1);
    }
}

proof fn lemma_handling_keeps_the_tasks<R>(
    v: ServerView<R>,
    progress: Progress<Phase, ()>,
    replies: Seq<KernelReply>,
    at: int,
)
    requires
        v.tasks.len() <= usize::MAX,
        progress matches Progress::Continue(phase) ==> v.allows(phase),
    ensures
        handled(v, progress, replies, at).0.tasks.len() == v.tasks.len(),
    decreases replies.len() - at,
{
    if let Progress::Continue(phase) = progress {
        if at < replies.len() {
            let (next_v, next) = v.after(phase, replies[at]);
            lemma_scan_finds_a_task(next_v.tasks, 0);
            match phase {
                Phase::Query { task } => lemma_scan_finds_a_task(next_v.tasks, task + 1),
                Phase::Dump { areas: _, task } => lemma_scan_finds_a_task(next_v.tasks, task + 1),
                Phase::Queue { task } => lemma_scan_finds_a_task(next_v.tasks, task + 1),
                Phase::Restart { task } => lemma_scan_finds_a_task(next_v.tasks, task + 1),
                _ => {},
            }
            lemma_handling_keeps_the_tasks(next_v, next, replies, at + 1);
        }
    }
}

/// Whatever happens, the state of the system and the reason of the reset are
/// those that were set last.
pub proof fn law_what_was_set_last_reads_back<R>(v: ServerView<R>, events: Seq<Event<R>>)
    ensures
        v.meets_all(events).state == last_state(v.state, events),
        v.meets_all(events).reset_reason == last_reason(v.reset_reason, events),
        v.meets_all(events).masks == v.masks,
        v.meets_all(events).mailing_list == v.mailing_list,
    decreases events.len(),
{
    if events.len() > 0 {
        let before = v.meets_all(events.drop_last());
        law_what_was_set_last_reads_back(v, events.drop_last());
        if let Event::Notified { bits, replies } = events.last() {
            lemma_handling_keeps(before, before.notified(bits), replies, 0);
        }
    }
}

/// Whatever has happened, all on the mailing list are told of a state that is
/// set if it is another than the one that was set last, and nobody is if it is
/// the same.
pub proof fn law_state_is_told_when_it_changes<R>(
    v: ServerView<R>,
    events: Seq<Event<R>>,
    state: u32,
)
    ensures
        v.meets_all(events).posts(state) == if state == last_state(v.state, events) {
            Seq::empty()
        } else {
            v.mailing_list
        },
{
    law_what_was_set_last_reads_back(v, events);
}

/// Neither calls nor notifications make tasks come or go, if a debugger does
/// not.
pub proof fn law_tasks_neither_come_nor_go<R>(v: ServerView<R>, events: Seq<Event<R>>)
    requires
        v.tasks.len() <= usize::MAX,
        forall|i: int|
            0 <= i < events.len() ==> ((#[trigger] events[i]) matches Event::Debugged(tasks)
                ==> tasks.len() == v.tasks.len()),
    ensures
        v.meets_all(events).tasks.len() == v.tasks.len(),
    decreases events.len(),
{
    if events.len() > 0 {
        let before = v.meets_all(events.drop_last());
        law_tasks_neither_come_nor_go(v, events.drop_last());
        assert(events.last() == events[events.len() - 1]);
        if let Event::Notified { bits, replies } = events.last() {
            lemma_scan_finds_a_task(before.tasks, 0);
            lemma_handling_keeps_the_tasks(before, before.notified(bits), replies, 0);
        }
    }
}

} // verus!
