//! What the handling of a notification comes to, all in all.
use crate::api::ClientError;
use crate::jefe::notification::{scan, KernelReply, KernelRequest, Phase};
use crate::jefe::server::{ServerView, TIMER_INTERVAL};
use crate::jefe::types::{Disposition, Dumps, TaskStatus};
use crate::procedure::Progress;
use vstd::prelude::*;

verus! {

/// The supervisor after the replies from index `at` on, one for each request,
/// in order, and what comes next.
pub open spec fn handled<R>(
    v: ServerView<R>,
    progress: Progress<Phase, ()>,
    replies: Seq<KernelReply>,
    at: int,
) -> (ServerView<R>, Progress<Phase, ()>)
    decreases replies.len() - at,
{
    match progress {
        Progress::Continue(phase) if at < replies.len() => {
            let (next_v, next) = v.after(phase, replies[at]);
            handled(next_v, next, replies, at + 1)
        },
        _ => (v, progress),
    }
}

/// What is asked for in the course of that, in order.
pub open spec fn asked<R>(
    v: ServerView<R>,
    progress: Progress<Phase, ()>,
    replies: Seq<KernelReply>,
    at: int,
) -> Seq<KernelRequest>
    decreases replies.len() - at,
{
    match progress {
        Progress::Continue(phase) if at < replies.len() => {
            let (next_v, next) = v.after(phase, replies[at]);
            seq![v.asks(phase)] + asked(next_v, next, replies, at + 1)
        },
        _ => Seq::empty(),
    }
}

/// The replies are answers to what was asked for, in a system where it is the
/// time `now` and `faulted` says which tasks are in a fault.
pub open spec fn truthful<R>(
    v: ServerView<R>,
    progress: Progress<Phase, ()>,
    replies: Seq<KernelReply>,
    at: int,
    now: u64,
    faulted: spec_fn(int) -> bool,
) -> bool
    decreases replies.len() - at,
{
    match progress {
        Progress::Continue(phase) if at < replies.len() => {
            let (next_v, next) = v.after(phase, replies[at]);
            &&& v.accepts(phase, replies[at])
            &&& phase is Clock ==> replies[at] == KernelReply::Now(now)
            &&& phase matches Phase::Query { task } ==> replies[at] == KernelReply::Faulted(
                faulted(task as int),
            )
            &&& truthful(next_v, next, replies, at + 1, now, faulted)
        },
        _ => true,
    }
}

/// What a task is once it has been seen to: if it has faulted, and was not held
/// already, it is held, if that is its disposition or its memory is dumped in
/// the background.
pub open spec fn seen_to(status: TaskStatus, faulted: bool, dumps: Dumps) -> TaskStatus {
    if !status.holding_fault && faulted && (status.disposition == Disposition::Hold || dumps
        is Background) {
        TaskStatus { holding_fault: true, ..status }
    } else {
        status
    }
}

/// What is asked for about a task: nothing if it is held, else whether it has
/// faulted. If so its memory is dumped, and it is restarted if that is its
/// disposition, unless the dump takes place in the background.
pub open spec fn task_script(
    status: TaskStatus,
    task: usize,
    faulted: bool,
    dumps: Dumps,
) -> Seq<KernelRequest> {
    let restart: Seq<KernelRequest> = if status.disposition == Disposition::Restart {
        seq![KernelRequest::RestartTask(task)]
    } else {
        Seq::empty()
    };
    if status.holding_fault {
        Seq::empty()
    } else if !faulted {
        seq![KernelRequest::ReadTaskStatus(task)]
    } else {
        seq![KernelRequest::ReadTaskStatus(task)] + match dumps {
            Dumps::Off => restart,
            Dumps::Direct { areas } => seq![KernelRequest::DumpTask { areas, task }] + restart,
            Dumps::Background => seq![KernelRequest::QueueDump(task)],
        }
    }
}

/// What is asked for about the tasks from index `from` on, one after the other.
pub open spec fn sweep_script(
    tasks: Seq<TaskStatus>,
    from: int,
    faulted: spec_fn(int) -> bool,
    dumps: Dumps,
) -> Seq<KernelRequest>
    decreases tasks.len() - from,
{
    if from >= tasks.len() {
        Seq::empty()
    } else {
        task_script(tasks[from], from as usize, faulted(from), dumps) + sweep_script(
            tasks,
            from + 1,
            faulted,
            dumps,
        )
    }
}

/// The tasks once those from index `from` on have been seen to.
pub open spec fn swept(
    tasks: Seq<TaskStatus>,
    from: int,
    faulted: spec_fn(int) -> bool,
    dumps: Dumps,
) -> Seq<TaskStatus> {
    Seq::new(
        tasks.len(),
        |i: int|
            if i < from {
                tasks[i]
            } else {
                seen_to(tasks[i], faulted(i), dumps)
            },
    )
}

/// Whether the timer needs to be set again.
pub open spec fn timer_due<R>(v: ServerView<R>, bits: u32, now: u64) -> bool {
    bits & v.masks.timer != 0 && now >= v.deadline
}

/// What is asked for about the timer: the time, if it is notified, and, if the
/// deadline has come, that it go off an interval after that.
pub open spec fn timer_script<R>(v: ServerView<R>, bits: u32, now: u64) -> Seq<KernelRequest> {
    if timer_due(v, bits, now) {
        seq![
            KernelRequest::GetTimer,
            KernelRequest::SetTimer {
                deadline: (v.deadline + TIMER_INTERVAL) as u64,
                mask: v.masks.timer,
            },
        ]
    } else if bits & v.masks.timer != 0 {
        seq![KernelRequest::GetTimer]
    } else {
        Seq::empty()
    }
}

proof fn lemma_script_step(
    tasks: Seq<TaskStatus>,
    other: Seq<TaskStatus>,
    from: int,
    faulted: spec_fn(int) -> bool,
    dumps: Dumps,
)
    requires
        0 <= from,
        tasks.len() == other.len(),
        forall|i: int| from <= i < tasks.len() ==> tasks[i] == other[i],
    ensures
        sweep_script(tasks, from, faulted, dumps) == sweep_script(other, from, faulted, dumps),
    decreases tasks.len() - from,
{
    if from < tasks.len() {
        lemma_script_step(tasks, other, from + 1, faulted, dumps);
    }
}

proof fn lemma_sweep<R>(
    v: ServerView<R>,
    from: int,
    replies: Seq<KernelReply>,
    at: int,
    now: u64,
    faulted: spec_fn(int) -> bool,
)
    requires
        0 <= from,
        0 <= at,
        v.tasks.len() <= usize::MAX,
        truthful(v, scan(v.tasks, from), replies, at, now, faulted),
        handled(v, scan(v.tasks, from), replies, at).1 is Finished,
    ensures
        handled(v, scan(v.tasks, from), replies, at).0 == (ServerView {
            tasks: swept(v.tasks, from, faulted, v.dumps),
            ..v
        }),
        asked(v, scan(v.tasks, from), replies, at) == sweep_script(
            v.tasks,
            from,
            faulted,
            v.dumps,
        ),
    decreases v.tasks.len() - from,
{
    if from >= v.tasks.len() {
        assert(swept(v.tasks, from, faulted, v.dumps) == v.tasks);
    } else if v.tasks[from].holding_fault {
        lemma_sweep(v, from + 1, replies, at, now, faulted);
        assert(swept(v.tasks, from, faulted, v.dumps) == swept(
            v.tasks,
            from + 1,
            faulted,
            v.dumps,
        ));
        assert(sweep_script(v.tasks, from, faulted, v.dumps) == sweep_script(
            v.tasks,
            from + 1,
            faulted,
            v.dumps,
        ));
    } else {
        reveal_with_fuel(handled, 4);
        reveal_with_fuel(asked, 4);
        reveal_with_fuel(truthful, 4);
        let status = v.tasks[from];
        let restarted = status.disposition == Disposition::Restart;
        let steps: int = if !faulted(from) {
            1
        } else {
            match v.dumps {
                Dumps::Off => if restarted {
                    2
                } else {
                    1
                },
                Dumps::Direct { .. } => if restarted {
                    3
                } else {
                    2
                },
                Dumps::Background => 2,
            }
        };
        let held = faulted(from) && (!restarted || v.dumps is Background);
        let w = if held {
            v.hold(from)
        } else {
            v
        };
        lemma_sweep(w, from + 1, replies, at + steps, now, faulted);
        lemma_script_step(v.tasks, w.tasks, from + 1, faulted, v.dumps);
        assert(swept(w.tasks, from + 1, faulted, v.dumps) == swept(
            v.tasks,
            from,
            faulted,
            v.dumps,
        ));
        assert(asked(v, scan(v.tasks, from), replies, at) =~= task_script(
            status,
            from as usize,
            faulted(from),
            v.dumps,
        ) + asked(w, scan(w.tasks, from + 1), replies, at + steps));
    }
}

/// Handling a notification asks for what the scripts say and nothing else, sees
/// to each task that has faulted, moves the deadline on by one interval if it
/// has come, and changes nothing besides.
pub proof fn law_notification_is_handled<R>(
    v: ServerView<R>,
    bits: u32,
    replies: Seq<KernelReply>,
    now: u64,
    faulted: spec_fn(int) -> bool,
)
    requires
        v.tasks.len() <= usize::MAX,
        truthful(v, v.notified(bits), replies, 0, now, faulted),
        handled(v, v.notified(bits), replies, 0).1 is Finished,
    ensures
        asked(v, v.notified(bits), replies, 0) == timer_script(v, bits, now) + if bits
            & v.masks.fault != 0 {
            sweep_script(v.tasks, 0, faulted, v.dumps)
        } else {
            Seq::empty()
        },
        handled(v, v.notified(bits), replies, 0).0 == (ServerView {
            deadline: if timer_due(v, bits, now) {
                (v.deadline + TIMER_INTERVAL) as u64
            } else {
                v.deadline
            },
            tasks: if bits & v.masks.fault != 0 {
                swept(v.tasks, 0, faulted, v.dumps)
            } else {
                v.tasks
            },
            ..v
        }),
{
    reveal_with_fuel(handled, 3);
    reveal_with_fuel(asked, 3);
    reveal_with_fuel(truthful, 3);
    let steps: int = if timer_due(v, bits, now) {
        2
    } else if bits & v.masks.timer != 0 {
        1
    } else {
        0
    };
    let w = if timer_due(v, bits, now) {
        ServerView { deadline: (v.deadline + TIMER_INTERVAL) as u64, ..v }
    } else {
        v
    };
    if bits & v.masks.fault != 0 {
        lemma_sweep(w, 0, replies, steps, now, faulted);
        assert(asked(v, v.notified(bits), replies, 0) =~= timer_script(v, bits, now) + asked(
            w,
            scan(w.tasks, 0),
            replies,
            steps,
        ));
    } else {
        assert(asked(v, v.notified(bits), replies, 0) =~= timer_script(v, bits, now));
    }
}

/// A request is about a task.
pub open spec fn is_about(request: KernelRequest, task: usize) -> bool {
    match request {
        KernelRequest::GetTimer => false,
        KernelRequest::SetTimer { .. } => false,
        KernelRequest::ReadTaskStatus(about) => about == task,
        KernelRequest::DumpTask { areas: _, task: about } => about == task,
        KernelRequest::QueueDump(about) => about == task,
        KernelRequest::RestartTask(about) => about == task,
    }
}

pub proof fn lemma_in_either<T>(a: Seq<T>, b: Seq<T>, x: T)
    ensures
        (a + b).contains(x) <==> a.contains(x) || b.contains(x),
{
    if a.contains(x) {
        let i = choose|i: int| 0 <= i < a.len() && a[i] == x;
        assert((a + b)[i] == x);
    }
    if b.contains(x) {
        let i = choose|i: int| 0 <= i < b.len() && b[i] == x;
        assert((a + b)[a.len() + i] == x);
    }
    if (a + b).contains(x) {
        let i = choose|i: int| 0 <= i < (a + b).len() && (a + b)[i] == x;
        assert(i < a.len() ==> a[i] == x);
        assert(i >= a.len() ==> b[i - a.len()] == x);
    }
}

pub proof fn lemma_script_is_about_its_task(
    status: TaskStatus,
    task: usize,
    faulted: bool,
    dumps: Dumps,
    request: KernelRequest,
)
    ensures
        task_script(status, task, faulted, dumps).contains(request) <==> !status.holding_fault && (
        request == KernelRequest::ReadTaskStatus(task) || faulted && match dumps {
            Dumps::Off => status.disposition == Disposition::Restart && request
                == KernelRequest::RestartTask(task),
            Dumps::Direct { areas } => request == (KernelRequest::DumpTask { areas, task })
                || status.disposition == Disposition::Restart && request
                == KernelRequest::RestartTask(task),
            Dumps::Background => request == KernelRequest::QueueDump(task),
        }),
{
    let script = task_script(status, task, faulted, dumps);
    if !status.holding_fault {
        assert(script[0] == KernelRequest::ReadTaskStatus(task));
        if faulted && script.len() > 1 {
            let second = script[1];
            assert(script.contains(second));
            if script.len() > 2 {
                let third = script[2];
                assert(script.contains(third));
            }
        }
    }
}

pub proof fn lemma_in_sweep(
    tasks: Seq<TaskStatus>,
    from: int,
    faulted: spec_fn(int) -> bool,
    dumps: Dumps,
    request: KernelRequest,
    task: usize,
)
    requires
        0 <= from,
        tasks.len() <= usize::MAX,
        is_about(request, task),
    ensures
        sweep_script(tasks, from, faulted, dumps).contains(request) <==> from <= task
            < tasks.len() && task_script(
            tasks[task as int],
            task,
            faulted(task as int),
            dumps,
        ).contains(request),
    decreases tasks.len() - from,
{
    if from < tasks.len() {
        lemma_in_sweep(tasks, from + 1, faulted, dumps, request, task);
        lemma_in_either(
            task_script(tasks[from], from as usize, faulted(from), dumps),
            sweep_script(tasks, from + 1, faulted, dumps),
            request,
        );
        lemma_script_is_about_its_task(
            tasks[from],
            from as usize,
            faulted(from),
            dumps,
            request,
        );
    }
}

/// A task is restarted if and only if it has faulted, was not held, is to be
/// restarted, and does not first have its memory dumped in the background.
pub proof fn law_restarted_if_faulted_and_not_held(
    tasks: Seq<TaskStatus>,
    faulted: spec_fn(int) -> bool,
    dumps: Dumps,
    task: usize,
)
    requires
        tasks.len() <= usize::MAX,
    ensures
        sweep_script(tasks, 0, faulted, dumps).contains(KernelRequest::RestartTask(task)) <==> {
            &&& task < tasks.len()
            &&& faulted(task as int)
            &&& !tasks[task as int].holding_fault
            &&& tasks[task as int].disposition == Disposition::Restart
            &&& !(dumps is Background)
        },
{
    let request = KernelRequest::RestartTask(task);
    lemma_in_sweep(tasks, 0, faulted, dumps, request, task);
    lemma_script_is_about_its_task(
        tasks[task as int],
        task,
        faulted(task as int),
        dumps,
        request,
    );
}

/// It is asked whether a task has faulted if and only if it is not known to be
/// held in a fault.
pub proof fn law_held_tasks_are_not_asked_about(
    tasks: Seq<TaskStatus>,
    faulted: spec_fn(int) -> bool,
    dumps: Dumps,
    task: usize,
)
    requires
        tasks.len() <= usize::MAX,
    ensures
        sweep_script(tasks, 0, faulted, dumps).contains(KernelRequest::ReadTaskStatus(task)) <==> {
            &&& task < tasks.len()
            &&& !tasks[task as int].holding_fault
        },
{
    let request = KernelRequest::ReadTaskStatus(task);
    lemma_in_sweep(tasks, 0, faulted, dumps, request, task);
    lemma_script_is_about_its_task(
        tasks[task as int],
        task,
        faulted(task as int),
        dumps,
        request,
    );
}

/// Seeing to the tasks changes the disposition of none, and lets go of none
/// that is held. A task that is held thereafter is not revisited.
pub proof fn law_held_tasks_stay_held(
    tasks: Seq<TaskStatus>,
    faulted: spec_fn(int) -> bool,
    later: spec_fn(int) -> bool,
    dumps: Dumps,
    task: usize,
)
    requires
        task < tasks.len(),
    ensures
        ({
            let after = swept(tasks, 0, faulted, dumps);
            let status = after[task as int];
            &&& after.len() == tasks.len()
            &&& status.disposition == tasks[task as int].disposition
            &&& tasks[task as int].holding_fault ==> status.holding_fault
            &&& status.holding_fault ==> {
                &&& task_script(status, task, later(task as int), dumps).len() == 0
                &&& swept(after, 0, later, dumps)[task as int] == status
            }
        }),
{
}

proof fn lemma_sweep_ends<R>(v: ServerView<R>, from: int, replies: Seq<KernelReply>, at: int)
    requires
        0 <= from,
        0 <= at,
        v.tasks.len() <= usize::MAX,
        from <= v.tasks.len() ==> replies.len() - at >= 3 * (v.tasks.len() - from),
    ensures
        handled(v, scan(v.tasks, from), replies, at).1 is Finished,
    decreases v.tasks.len() - from,
{
    if from < v.tasks.len() {
        if v.tasks[from].holding_fault {
            lemma_sweep_ends(v, from + 1, replies, at);
        } else {
            reveal_with_fuel(handled, 4);
            let task = from as usize;
            let (w1, next1) = v.after(Phase::Query { task }, replies[at]);
            if next1 == scan(w1.tasks, from + 1) {
                lemma_sweep_ends(w1, from + 1, replies, at + 1);
            } else {
                let (w2, next2) = w1.after(next1->Continue_0, replies[at + 1]);
                if next2 == scan(w2.tasks, from + 1) {
                    lemma_sweep_ends(w2, from + 1, replies, at + 2);
                } else {
                    let (w3, next3) = w2.after(next2->Continue_0, replies[at + 2]);
                    lemma_sweep_ends(w3, from + 1, replies, at + 3);
                }
            }
        }
    }
}

/// The handling of a notification comes to an end, after at most two replies
/// about the timer and three about each task.
pub proof fn law_handling_comes_to_an_end<R>(
    v: ServerView<R>,
    bits: u32,
    replies: Seq<KernelReply>,
)
    requires
        v.tasks.len() <= usize::MAX,
        replies.len() >= 2 + 3 * v.tasks.len(),
    ensures
        handled(v, v.notified(bits), replies, 0).1 is Finished,
{
    reveal_with_fuel(handled, 3);
    let late = ServerView { deadline: (v.deadline + TIMER_INTERVAL) as u64, ..v };
    lemma_sweep_ends(v, 0, replies, 0);
    lemma_sweep_ends(v, 0, replies, 1);
    lemma_sweep_ends(late, 0, replies, 2);
}

/// A task that faults while memory is dumped in the background is held until
/// its dump is done. It is then restarted, and held no longer, if that is its
/// disposition, and else stays held. The other tasks are left alone.
pub proof fn law_background_dump_holds_until_it_is_done<R>(
    v: ServerView<R>,
    faulted: spec_fn(int) -> bool,
    task: u32,
)
    requires
        v.tasks.len() <= usize::MAX,
        v.dumps is Background,
        task < v.tasks.len(),
        faulted(task as int),
        !v.tasks[task as int].holding_fault,
    ensures
        ({
            let held = ServerView { tasks: swept(v.tasks, 0, faulted, v.dumps), ..v };
            let (done, restart) = held.dumped(task);
            let restarted = v.tasks[task as int].disposition == Disposition::Restart;
            &&& held.tasks[task as int].holding_fault
            &&& restart == Ok::<Option<usize>, ClientError>(
                if restarted {
                    Some(task as usize)
                } else {
                    None
                },
            )
            &&& done.tasks[task as int] == TaskStatus {
                holding_fault: !restarted,
                ..v.tasks[task as int]
            }
            &&& done == ServerView { tasks: done.tasks, ..held }
            &&& forall|i: int|
                0 <= i < v.tasks.len() && i != task ==> #[trigger] done.tasks[i] == held.tasks[i]
        }),
{
}

} // verus!
