//! What the supervisor does, told by what it is asked and what it asks for.
use crate::api::{ClientError, RequestError};
use crate::jefe::dump::{refused, DumpAgentError, DumpCall};
use crate::jefe::laws::{
    asked, handled, is_about, law_notification_is_handled, lemma_in_either, lemma_in_sweep,
    lemma_script_is_about_its_task, sweep_script, task_script, timer_script, truthful,
};
use crate::jefe::notification::{KernelReply, KernelRequest, Phase};
use crate::jefe::server::ServerView;
use crate::jefe::types::{Disposition, Dumps, TaskStatus};
use vstd::prelude::*;

verus! {

/// Handling a notification asks for the time if and only if the timer is
/// notified, and sets the timer, an interval behind the old deadline, if and only
/// if that has come. If a fault is notified it asks about each task that is not
/// held. Of those that have faulted it dumps each, in whichever way there is, and
/// restarts each that is to be restarted, unless it is dumped in the background.
/// It asks for nothing else.
pub proof fn law_handling_asks_for_no_more_and_no_less<R>(
    v: ServerView<R>,
    bits: u32,
    replies: Seq<KernelReply>,
    now: u64,
    faulted: spec_fn(int) -> bool,
    request: KernelRequest,
)
    requires
        v.tasks.len() <= usize::MAX,
        truthful(v, v.notified(bits), replies, 0, now, faulted),
        handled(v, v.notified(bits), replies, 0).1 is Finished,
    ensures
        ({
            let timer = bits & v.masks.timer != 0;
            let looked_at = |task: usize|
                bits & v.masks.fault != 0 && task < v.tasks.len()
                    && !v.tasks[task as int].holding_fault;
            asked(v, v.notified(bits), replies, 0).contains(request) <==> match request {
                KernelRequest::GetTimer => timer,
                KernelRequest::SetTimer { deadline, mask } => timer && now >= v.deadline && deadline
                    == v.deadline + 100 && mask == v.masks.timer,
                KernelRequest::ReadTaskStatus(task) => looked_at(task),
                KernelRequest::DumpTask { areas, task } => looked_at(task) && faulted(task as int)
                    && v.dumps == (Dumps::Direct { areas }),
                KernelRequest::QueueDump(task) => looked_at(task) && faulted(task as int)
                    && v.dumps is Background,
                KernelRequest::RestartTask(task) => looked_at(task) && faulted(task as int)
                    && v.tasks[task as int].disposition is Restart && !(v.dumps is Background),
            }
        }),
{
    law_notification_is_handled(v, bits, replies, now, faulted);
    let sweep = if bits & v.masks.fault != 0 {
        sweep_script(v.tasks, 0, faulted, v.dumps)
    } else {
        Seq::empty()
    };
    let timer = timer_script(v, bits, now);
    lemma_in_either(timer, sweep, request);
    lemma_clock_is_asked_alone(v, bits, now, request, replies, faulted);
    match request {
        KernelRequest::GetTimer => lemma_sweep_leaves_the_clock(
            v.tasks,
            0,
            faulted,
            v.dumps,
            request,
        ),
        KernelRequest::SetTimer { .. } => lemma_sweep_leaves_the_clock(
            v.tasks,
            0,
            faulted,
            v.dumps,
            request,
        ),
        KernelRequest::ReadTaskStatus(task) => lemma_about(v, faulted, request, task),
        KernelRequest::DumpTask { areas: _, task } => lemma_about(v, faulted, request, task),
        KernelRequest::QueueDump(task) => lemma_about(v, faulted, request, task),
        KernelRequest::RestartTask(task) => lemma_about(v, faulted, request, task),
    }
}

proof fn lemma_about<R>(
    v: ServerView<R>,
    faulted: spec_fn(int) -> bool,
    request: KernelRequest,
    task: usize,
)
    requires
        v.tasks.len() <= usize::MAX,
        is_about(request, task),
    ensures
        sweep_script(v.tasks, 0, faulted, v.dumps).contains(request) <==> task < v.tasks.len()
            && !v.tasks[task as int].holding_fault && (request == KernelRequest::ReadTaskStatus(
            task,
        ) || faulted(task as int) && match v.dumps {
            Dumps::Off => v.tasks[task as int].disposition == Disposition::Restart && request
                == KernelRequest::RestartTask(task),
            Dumps::Direct { areas } => request == (KernelRequest::DumpTask { areas, task })
                || v.tasks[task as int].disposition == Disposition::Restart && request
                == KernelRequest::RestartTask(task),
            Dumps::Background => request == KernelRequest::QueueDump(task),
        }),
{
    lemma_in_sweep(v.tasks, 0, faulted, v.dumps, request, task);
    lemma_script_is_about_its_task(
        v.tasks[task as int],
        task,
        faulted(task as int),
        v.dumps,
        request,
    );
}

proof fn lemma_clock_is_asked_alone<R>(
    v: ServerView<R>,
    bits: u32,
    now: u64,
    request: KernelRequest,
    replies: Seq<KernelReply>,
    faulted: spec_fn(int) -> bool,
)
    requires
        truthful(v, v.notified(bits), replies, 0, now, faulted),
        handled(v, v.notified(bits), replies, 0).1 is Finished,
    ensures
        timer_script(v, bits, now).contains(request) <==> bits & v.masks.timer != 0 && match request {
            KernelRequest::GetTimer => true,
            KernelRequest::SetTimer { deadline, mask } => now >= v.deadline && deadline == v.deadline
                + 100 && mask == v.masks.timer,
            _ => false,
        },
{
    let script = timer_script(v, bits, now);
    if script.len() > 0 {
        assert(script.contains(script[0]));
    }
    if script.len() > 1 {
        assert(script.contains(script[1]));
    }
}

proof fn lemma_sweep_leaves_the_clock(
    tasks: Seq<TaskStatus>,
    from: int,
    faulted: spec_fn(int) -> bool,
    dumps: Dumps,
    request: KernelRequest,
)
    requires
        0 <= from,
        request is GetTimer || request is SetTimer,
    ensures
        !sweep_script(tasks, from, faulted, dumps).contains(request),
    decreases tasks.len() - from,
{
    if from < tasks.len() {
        let script = task_script(tasks[from], from as usize, faulted(from), dumps);
        lemma_sweep_leaves_the_clock(tasks, from + 1, faulted, dumps, request);
        lemma_script_is_about_its_task(tasks[from], from as usize, faulted(from), dumps, request);
        lemma_in_either(script, sweep_script(tasks, from + 1, faulted, dumps), request);
    }
}

/// The order in which things are asked for: the time, the timer, and then each
/// task in turn, first whether it has faulted, then its dump, then its restart.
pub open spec fn place(request: KernelRequest) -> int {
    match request {
        KernelRequest::GetTimer => -2,
        KernelRequest::SetTimer { .. } => -1,
        KernelRequest::ReadTaskStatus(task) => 3 * task,
        KernelRequest::DumpTask { areas: _, task } => 3 * task + 1,
        KernelRequest::QueueDump(task) => 3 * task + 1,
        KernelRequest::RestartTask(task) => 3 * task + 2,
    }
}

proof fn lemma_sweep_in_order(
    tasks: Seq<TaskStatus>,
    from: int,
    faulted: spec_fn(int) -> bool,
    dumps: Dumps,
)
    requires
        0 <= from,
        tasks.len() <= usize::MAX,
    ensures
        ({
            let script = sweep_script(tasks, from, faulted, dumps);
            &&& forall|i: int| 0 <= i < script.len() ==> place(#[trigger] script[i]) >= 3 * from
            &&& forall|i: int, j: int|
                0 <= i < j < script.len() ==> place(#[trigger] script[i]) < place(
                    #[trigger] script[j],
                )
        }),
    decreases tasks.len() - from,
{
    if from < tasks.len() {
        let first = task_script(tasks[from], from as usize, faulted(from), dumps);
        let rest = sweep_script(tasks, from + 1, faulted, dumps);
        let script = sweep_script(tasks, from, faulted, dumps);
        lemma_sweep_in_order(tasks, from + 1, faulted, dumps);
        assert forall|i: int| 0 <= i < script.len() implies place(#[trigger] script[i]) >= 3 * from
            && (i < first.len() ==> place(script[i]) < 3 * from + 3) by {
            if i >= first.len() {
                assert(script[i] == rest[i - first.len()]);
            } else {
                assert(script[i] == first[i]);
            }
        }
        assert forall|i: int, j: int| 0 <= i < j < script.len() implies place(
            #[trigger] script[i],
        ) < place(#[trigger] script[j]) by {
            if i >= first.len() {
                assert(script[i] == rest[i - first.len()]);
                assert(script[j] == rest[j - first.len()]);
            } else if j >= first.len() {
                assert(script[j] == rest[j - first.len()]);
            } else {
                assert(script[i] == first[i]);
                assert(script[j] == first[j]);
            }
        }
    }
}

/// Nothing is asked for twice while a notification is handled, and everything in
/// its order.
pub proof fn law_handling_asks_in_order<R>(
    v: ServerView<R>,
    bits: u32,
    replies: Seq<KernelReply>,
    now: u64,
    faulted: spec_fn(int) -> bool,
)
    requires
        v.tasks.len() <= usize::MAX,
        truthful(v, v.notified(bits), replies, 0, now, faulted),
        handled(v, v.notified(bits), replies, 0).1 is Finished,
    ensures
        forall|i: int, j: int|
            0 <= i < j < asked(v, v.notified(bits), replies, 0).len() ==> place(
                #[trigger] asked(v, v.notified(bits), replies, 0)[i],
            ) < place(#[trigger] asked(v, v.notified(bits), replies, 0)[j]),
{
    law_notification_is_handled(v, bits, replies, now, faulted);
    lemma_sweep_in_order(v.tasks, 0, faulted, v.dumps);
    let timer = timer_script(v, bits, now);
    let sweep = if bits & v.masks.fault != 0 {
        sweep_script(v.tasks, 0, faulted, v.dumps)
    } else {
        Seq::empty()
    };
    let all = asked(v, v.notified(bits), replies, 0);
    assert forall|i: int, j: int| 0 <= i < j < all.len() implies place(#[trigger] all[i]) < place(
        #[trigger] all[j],
    ) by {
        if i >= timer.len() {
            assert(all[i] == sweep[i - timer.len()]);
        }
        if j >= timer.len() {
            assert(all[j] == sweep[j - timer.len()]);
        }
    }
}

/// Handling a notification moves the deadline on by one interval if it has come
/// and the timer is notified. If a fault is notified, a task is held thereafter
/// if and only if it was before, or has faulted and is to be held or dumped in
/// the background. Nothing else changes.
pub proof fn law_handling_changes_no_more_and_no_less<R>(
    v: ServerView<R>,
    bits: u32,
    replies: Seq<KernelReply>,
    now: u64,
    faulted: spec_fn(int) -> bool,
)
    requires
        v.tasks.len() <= usize::MAX,
        truthful(v, v.notified(bits), replies, 0, now, faulted),
        handled(v, v.notified(bits), replies, 0).1 is Finished,
    ensures
        ({
            let after = handled(v, v.notified(bits), replies, 0).0;
            &&& after.deadline == if bits & v.masks.timer != 0 && now >= v.deadline {
                v.deadline + 100
            } else {
                v.deadline as int
            }
            &&& after.tasks.len() == v.tasks.len()
            &&& forall|i: int|
                0 <= i < v.tasks.len() ==> {
                    &&& (#[trigger] after.tasks[i]).disposition == v.tasks[i].disposition
                    &&& after.tasks[i].holding_fault <==> v.tasks[i].holding_fault || bits
                        & v.masks.fault != 0 && faulted(i) && (v.tasks[i].disposition is Hold
                        || v.dumps is Background)
                }
            &&& after.state == v.state
            &&& after.reset_reason == v.reset_reason
            &&& after.dumps == v.dumps
            &&& after.masks == v.masks
            &&& after.mailing_list == v.mailing_list
        }),
{
    law_notification_is_handled(v, bits, replies, now, faulted);
}

/// What the kernel answers is accepted, whatever it is, but for a time at which
/// the next deadline would be past the end of time. What is done to a task is
/// done to one that there is.
pub proof fn law_what_the_kernel_says_is_accepted<R>(
    v: ServerView<R>,
    phase: Phase,
    reply: KernelReply,
)
    ensures
        v.accepts(phase, reply) <==> match phase {
            Phase::Clock { .. } => reply matches KernelReply::Now(now) && (now >= v.deadline
                ==> v.deadline + 100 <= u64::MAX),
            Phase::Query { .. } => reply is Faulted,
            _ => reply is Done,
        },
        phase is Clock || phase is SetTimer ==> v.allows(phase),
        phase matches Phase::Query { task } ==> (v.allows(phase) <==> task < v.tasks.len()),
{
}

/// The end of a background dump lets go of the task, and has it restarted, if and
/// only if there is such a task, it is to be restarted, and dumps are in the
/// background at all. Nothing else changes, and only a task that there is not, or
/// the want of background dumps, is an error.
pub proof fn law_end_of_a_dump_restarts_the_task<R>(v: ServerView<R>, task: u32)
    ensures
        ({
            let (after, restart) = v.dumped(task);
            let known = v.dumps is Background && task < v.tasks.len();
            let restarted = known && v.tasks[task as int].disposition is Restart;
            &&& restart == if restarted {
                Ok::<Option<usize>, ClientError>(Some(task as usize))
            } else if known {
                Ok(None)
            } else {
                Err(ClientError::BadMessageContents)
            }
            &&& after.tasks.len() == v.tasks.len()
            &&& forall|i: int|
                0 <= i < v.tasks.len() ==> {
                    &&& (#[trigger] after.tasks[i]).disposition == v.tasks[i].disposition
                    &&& after.tasks[i].holding_fault <==> v.tasks[i].holding_fault && !(restarted
                        && i == task)
                }
            &&& after.state == v.state
            &&& after.deadline == v.deadline
            &&& after.reset_reason == v.reset_reason
            &&& after.dumps == v.dumps
            &&& after.masks == v.masks
            &&& after.mailing_list == v.mailing_list
        }),
{
}

/// A task that a client wants dumped is refused with one error if it is the
/// supervisor and with another if there is none such. A refusal tells the client
/// its error.
pub proof fn law_dumps_are_refused_for_a_reason<R>(
    v: ServerView<R>,
    task_index: u32,
    error: DumpAgentError,
)
    ensures
        v.dumpable(task_index) == if task_index == 0 {
            Err::<usize, DumpAgentError>(DumpAgentError::NotSupported)
        } else if task_index < v.tasks.len() {
            Ok(task_index as usize)
        } else {
            Err(DumpAgentError::BadOffset)
        },
        refused(error) == Err::<DumpCall, RequestError<DumpAgentError>>(
            RequestError::Runtime(error),
        ),
{
}

} // verus!
