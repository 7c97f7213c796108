use hubris_servers::api::{ClientError, RequestError};
use hubris_servers::jefe::dump::{DumpAgentError, DumpCall};
use hubris_servers::jefe::notification::{KernelReply, KernelRequest};
use hubris_servers::jefe::server::ServerImpl;
use hubris_servers::jefe::types::{Disposition, Dumps, Masks, TaskStatus};
use hubris_servers::procedure::Progress;

const FAULT: u32 = 1;
const TIMER: u32 = 2;

#[derive(Clone, Copy, Debug, PartialEq)]
enum Reason {
    Unknown,
    Pin,
}

/// Five tasks, of which the third and the fifth are to be held.
fn server(dumps: Dumps) -> ServerImpl<Reason> {
    let masks = Masks { fault: FAULT, timer: TIMER };
    ServerImpl::new(5, &[2, 4], 1000, Reason::Unknown, dumps, masks, vec![(3, 8), (1, 4)])
}

/// Handles a notification in a system where it is `now` and the tasks `faulted`
/// are in a fault, and returns what was asked for.
fn notify(
    server: &mut ServerImpl<Reason>,
    bits: u32,
    now: u64,
    faulted: &[usize],
) -> Vec<KernelRequest> {
    let mut asked = Vec::new();
    let mut progress = server.handle_notification(bits);
    while let Progress::Continue(phase) = progress {
        let request = server.request(phase);
        asked.push(request);
        let reply = match request {
            KernelRequest::GetTimer => KernelReply::Now(now),
            KernelRequest::ReadTaskStatus(task) => KernelReply::Faulted(faulted.contains(&task)),
            _ => KernelReply::Done,
        };
        progress = server.resume(phase, reply);
    }
    asked
}

fn held(server: &ServerImpl<Reason>) -> Vec<usize> {
    (0..server.task_states.len()).filter(|i| server.task_states[*i].holding_fault).collect()
}

#[test]
fn tasks_are_restarted_by_default() {
    assert_eq!(Disposition::default(), Disposition::Restart);
    assert_eq!(
        TaskStatus::default(),
        TaskStatus { disposition: Disposition::Restart, holding_fault: false }
    );
}

#[test]
fn the_supervisor_starts_with_the_tasks_to_be_held() {
    let server = server(Dumps::Off);
    let dispositions: Vec<Disposition> =
        server.task_states.iter().map(|status| status.disposition).collect();
    assert_eq!(
        dispositions,
        vec![
            Disposition::Restart,
            Disposition::Restart,
            Disposition::Hold,
            Disposition::Restart,
            Disposition::Hold,
        ]
    );
    assert!(held(&server).is_empty());
    assert_eq!(server.deadline, 1100);
    assert_eq!(server.get_state(), 0);
    assert_eq!(server.get_reset_reason(), Reason::Unknown);
    assert_eq!(server.current_notification_mask(), 3);
}

#[test]
fn faulted_tasks_are_restarted_or_held() {
    let mut server = server(Dumps::Off);
    assert_eq!(
        notify(&mut server, FAULT, 0, &[1, 2]),
        vec![
            KernelRequest::ReadTaskStatus(0),
            KernelRequest::ReadTaskStatus(1),
            KernelRequest::RestartTask(1),
            KernelRequest::ReadTaskStatus(2),
            KernelRequest::ReadTaskStatus(3),
            KernelRequest::ReadTaskStatus(4),
        ]
    );
    assert_eq!(held(&server), vec![2]);
}

#[test]
fn held_tasks_are_not_revisited() {
    let mut server = server(Dumps::Off);
    notify(&mut server, FAULT, 0, &[2, 4]);
    assert_eq!(held(&server), vec![2, 4]);
    assert_eq!(
        notify(&mut server, FAULT, 0, &[2, 3, 4]),
        vec![
            KernelRequest::ReadTaskStatus(0),
            KernelRequest::ReadTaskStatus(1),
            KernelRequest::ReadTaskStatus(3),
            KernelRequest::RestartTask(3),
        ]
    );
    assert_eq!(held(&server), vec![2, 4]);
    assert_eq!(server.task_states[2].disposition, Disposition::Hold);
}

#[test]
fn memory_is_dumped_before_a_task_is_restarted_or_held() {
    let mut server = server(Dumps::Direct { areas: 77 });
    assert_eq!(
        notify(&mut server, FAULT, 0, &[1, 4]),
        vec![
            KernelRequest::ReadTaskStatus(0),
            KernelRequest::ReadTaskStatus(1),
            KernelRequest::DumpTask { areas: 77, task: 1 },
            KernelRequest::RestartTask(1),
            KernelRequest::ReadTaskStatus(2),
            KernelRequest::ReadTaskStatus(3),
            KernelRequest::ReadTaskStatus(4),
            KernelRequest::DumpTask { areas: 77, task: 4 },
        ]
    );
    assert_eq!(held(&server), vec![4]);
}

#[test]
fn tasks_are_held_while_they_are_dumped_in_the_background() {
    let mut server = server(Dumps::Background);
    assert_eq!(
        notify(&mut server, FAULT, 0, &[1, 2]),
        vec![
            KernelRequest::ReadTaskStatus(0),
            KernelRequest::ReadTaskStatus(1),
            KernelRequest::QueueDump(1),
            KernelRequest::ReadTaskStatus(2),
            KernelRequest::QueueDump(2),
            KernelRequest::ReadTaskStatus(3),
            KernelRequest::ReadTaskStatus(4),
        ]
    );
    assert_eq!(held(&server), vec![1, 2]);
    assert_eq!(server.finish_background_dump(1), Ok(Some(1)));
    assert_eq!(held(&server), vec![2]);
    assert_eq!(server.finish_background_dump(2), Ok(None));
    assert_eq!(held(&server), vec![2]);
    assert_eq!(server.finish_background_dump(5), Err(ClientError::BadMessageContents));
    assert_eq!(held(&server), vec![2]);
    assert_eq!(server.get_background_dump_task(), Ok(()));
}

#[test]
fn a_task_can_fault_again_once_its_dump_is_done() {
    let mut server = server(Dumps::Background);
    notify(&mut server, FAULT, 0, &[3]);
    assert!(!notify(&mut server, FAULT, 0, &[3]).contains(&KernelRequest::QueueDump(3)));
    assert_eq!(server.finish_background_dump(3), Ok(Some(3)));
    assert!(notify(&mut server, FAULT, 0, &[3]).contains(&KernelRequest::QueueDump(3)));
    assert_eq!(held(&server), vec![3]);
}

#[test]
fn handling_takes_at_most_three_replies_for_each_task() {
    let mut server = server(Dumps::Direct { areas: 1 });
    server.task_states = vec![TaskStatus::default(); 5];
    assert_eq!(notify(&mut server, FAULT | TIMER, 1100, &[0, 1, 2, 3, 4]).len(), 2 + 3 * 5);
}

#[test]
fn without_background_dumps_nobody_may_ask_for_them() {
    for dumps in [Dumps::Off, Dumps::Direct { areas: 1 }] {
        let mut server = server(dumps);
        server.task_states[1].holding_fault = true;
        assert_eq!(server.get_background_dump_task(), Err(ClientError::BadMessageContents));
        assert_eq!(server.finish_background_dump(1), Err(ClientError::BadMessageContents));
        assert_eq!(held(&server), vec![1]);
    }
}

#[test]
fn the_timer_is_set_again_when_it_is_due() {
    let mut server = server(Dumps::Off);
    assert_eq!(notify(&mut server, TIMER, 1099, &[1]), vec![KernelRequest::GetTimer]);
    assert_eq!(server.deadline, 1100);
    assert_eq!(
        notify(&mut server, TIMER, 1100, &[1]),
        vec![KernelRequest::GetTimer, KernelRequest::SetTimer { deadline: 1200, mask: TIMER }]
    );
    assert_eq!(server.deadline, 1200);
    // However late it is, the deadline moves on by one interval.
    notify(&mut server, TIMER, 9000, &[]);
    assert_eq!(server.deadline, 1300);
}

#[test]
fn the_timer_is_seen_to_before_the_tasks() {
    let mut server = server(Dumps::Off);
    let asked = notify(&mut server, TIMER | FAULT, 1150, &[0]);
    assert_eq!(asked[0], KernelRequest::GetTimer);
    assert_eq!(asked[1], KernelRequest::SetTimer { deadline: 1200, mask: TIMER });
    assert_eq!(asked[2], KernelRequest::ReadTaskStatus(0));
    assert_eq!(asked[3], KernelRequest::RestartTask(0));
    assert_eq!(asked.len(), 8);
}

#[test]
fn other_notifications_are_not_handled() {
    let mut server = server(Dumps::Off);
    assert_eq!(server.current_notification_mask() & 4, 0);
    assert!(notify(&mut server, 4, 5000, &[0, 1]).is_empty());
    assert_eq!(server.deadline, 1100);
}

#[test]
fn changes_of_state_are_told_to_the_mailing_list() {
    let mut server = server(Dumps::Off);
    assert_eq!(server.set_state(6), vec![(3, 8), (1, 4)]);
    assert_eq!(server.get_state(), 6);
    assert!(server.set_state(6).is_empty());
    assert_eq!(server.set_state(0), vec![(3, 8), (1, 4)]);
    assert_eq!(server.get_state(), 0);
}

#[test]
fn what_was_set_last_is_kept() {
    let mut server = server(Dumps::Background);
    server.set_reset_reason(Reason::Pin);
    server.set_state(4);
    server.set_state(6);
    notify(&mut server, FAULT | TIMER, 1100, &[1, 2]);
    server.finish_background_dump(1).unwrap();
    assert_eq!(server.get_reset_reason(), Reason::Pin);
    assert_eq!(server.get_state(), 6);
    assert!(server.set_state(6).is_empty());
    assert_eq!(server.set_state(4), vec![(3, 8), (1, 4)]);
    assert_eq!(server.task_states.len(), 5);
}

#[test]
fn a_client_can_have_itself_restarted() {
    assert_eq!(server(Dumps::Off).restart_me_raw(3), KernelRequest::RestartTask(3));
}

#[test]
fn dump_calls_go_to_the_dump_agent() {
    let mut server = server(Dumps::Direct { areas: 9 });
    assert_eq!(server.get_dump_area(2), Ok(DumpCall::GetArea { areas: 9, index: 2 }));
    assert_eq!(server.claim_dump_area(), Ok(DumpCall::ClaimArea { areas: 9 }));
    assert_eq!(server.dump_task(4), Ok(DumpCall::DumpTask { areas: 9, task: 4 }));
    assert_eq!(
        server.dump_task_region(1, 0x2000_0000, 64),
        Ok(DumpCall::DumpTaskRegion { areas: 9, task: 1, address: 0x2000_0000, length: 64 })
    );
    assert_eq!(
        server.reinitialize_dump_from(1),
        Ok(DumpCall::ReinitializeFrom { areas: 9, index: 1 })
    );
    assert_eq!(server.reinitialize_dump_areas(), Ok(DumpCall::InitializeAreas));
    server.keep_dump_areas(12);
    assert_eq!(server.claim_dump_area(), Ok(DumpCall::ClaimArea { areas: 12 }));
}

#[test]
fn only_tasks_other_than_the_supervisor_can_be_dumped() {
    let server = server(Dumps::Direct { areas: 9 });
    let not_supported = Err(RequestError::Runtime(DumpAgentError::NotSupported));
    let bad_offset = Err(RequestError::Runtime(DumpAgentError::BadOffset));
    assert_eq!(server.dump_task(0), not_supported);
    assert_eq!(server.dump_task_region(0, 0, 0), not_supported);
    assert_eq!(server.dump_task(5), bad_offset);
    assert_eq!(server.dump_task_region(5, 0, 0), bad_offset);
}

#[test]
fn without_a_dump_agent_dump_calls_are_refused() {
    for dumps in [Dumps::Off, Dumps::Background] {
        let server = server(dumps);
        let unsupported = Err(RequestError::Runtime(DumpAgentError::DumpAgentUnsupported));
        assert_eq!(server.get_dump_area(0), unsupported);
        assert_eq!(server.claim_dump_area(), unsupported);
        assert_eq!(server.dump_task(0), unsupported);
        assert_eq!(server.dump_task_region(9, 0, 0), unsupported);
        assert_eq!(server.reinitialize_dump_areas(), unsupported);
        assert_eq!(server.reinitialize_dump_from(0), unsupported);
    }
}
