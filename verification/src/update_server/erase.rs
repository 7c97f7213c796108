//! Erasing bank 2.
use crate::procedure::{answered, requests, run, Procedure, Progress};
use crate::update_server::registers::{ControlChange, FlashReply, FlashRequest};
use crate::update_server::status::{bank2_status, reported};
use crate::update_server::types::UpdateError;
use vstd::prelude::*;

verus! {

/// The erase, by what is outstanding.
#[derive(Clone, Copy, Debug, PartialEq, Eq)]
pub enum BankErase {
    /// Enabling the flash interrupt.
    EnableInterrupt,
    /// Letting the end of the erase, and its failures, raise the interrupt.
    EnableSources,
    /// Starting the erase.
    Launch,
    /// Waiting for the interrupt.
    Await,
    /// Finding out whether the erase is over.
    CheckEnd,
    /// Enabling the interrupt once more.
    Rearm,
    /// Finding out how the erase went.
    Status,
}

/// The change that lets the end of an operation and its failures raise the
/// interrupt.
pub open spec fn interrupt_sources_on() -> ControlChange {
    ControlChange {
        psize: None,
        pg: None,
        start: None,
        ber: None,
        eopie: Some(true),
        wrperrie: Some(true),
        pgserrie: Some(true),
        strberrie: Some(true),
        incerrie: Some(true),
        operrie: Some(true),
    }
}

/// The change that starts a bank erase.
pub open spec fn erase_started() -> ControlChange {
    ControlChange {
        psize: None,
        pg: None,
        start: Some(true),
        ber: Some(true),
        eopie: None,
        wrperrie: None,
        pgserrie: None,
        strberrie: None,
        incerrie: None,
        operrie: None,
    }
}

impl Procedure for BankErase {
    type Request = FlashRequest;

    type Reply = FlashReply;

    type Outcome = Result<(), UpdateError>;

    open spec fn wf(self) -> bool {
        true
    }

    open spec fn asks(self) -> FlashRequest {
        match self {
            BankErase::EnableInterrupt => FlashRequest::EnableInterrupt,
            BankErase::EnableSources => FlashRequest::ModifyControl(interrupt_sources_on()),
            BankErase::Launch => FlashRequest::ModifyControl(erase_started()),
            BankErase::Await => FlashRequest::AwaitInterrupt,
            BankErase::CheckEnd => FlashRequest::ReadStatus,
            BankErase::Rearm => FlashRequest::EnableInterrupt,
            BankErase::Status => FlashRequest::ReadStatus,
        }
    }

    open spec fn accepts(self, reply: FlashReply) -> bool {
        self.asks().answered_by(reply)
    }

    open spec fn after(self, reply: FlashReply) -> Progress<BankErase, Result<(), UpdateError>> {
        match self {
            BankErase::EnableInterrupt => Progress::Continue(BankErase::EnableSources),
            BankErase::EnableSources => Progress::Continue(BankErase::Launch),
            BankErase::Launch => Progress::Continue(BankErase::Await),
            BankErase::Await => Progress::Continue(BankErase::CheckEnd),
            BankErase::CheckEnd => if reply->Status_0.eop {
                Progress::Continue(BankErase::Status)
            } else {
                Progress::Continue(BankErase::Rearm)
            },
            BankErase::Rearm => Progress::Continue(BankErase::Await),
            BankErase::Status => Progress::Finished(reported(reply->Status_0)),
        }
    }

    fn request(&self) -> (request: FlashRequest) {
        match self {
            BankErase::EnableInterrupt => FlashRequest::EnableInterrupt,
            BankErase::EnableSources => FlashRequest::ModifyControl(
                ControlChange {
                    psize: None,
                    pg: None,
                    start: None,
                    ber: None,
                    eopie: Some(true),
                    wrperrie: Some(true),
                    pgserrie: Some(true),
                    strberrie: Some(true),
                    incerrie: Some(true),
                    operrie: Some(true),
                },
            ),
            BankErase::Launch => FlashRequest::ModifyControl(
                ControlChange {
                    psize: None,
                    pg: None,
                    start: Some(true),
                    ber: Some(true),
                    eopie: None,
                    wrperrie: None,
                    pgserrie: None,
                    strberrie: None,
                    incerrie: None,
                    operrie: None,
                },
            ),
            BankErase::Await => FlashRequest::AwaitInterrupt,
            BankErase::CheckEnd => FlashRequest::ReadStatus,
            BankErase::Rearm => FlashRequest::EnableInterrupt,
            BankErase::Status => FlashRequest::ReadStatus,
        }
    }

    fn resume(self, reply: FlashReply) -> (progress: Progress<BankErase, Result<(), UpdateError>>) {
        match (self, reply) {
            (BankErase::EnableInterrupt, _) => Progress::Continue(BankErase::EnableSources),
            (BankErase::EnableSources, _) => Progress::Continue(BankErase::Launch),
            (BankErase::Launch, _) => Progress::Continue(BankErase::Await),
            (BankErase::Await, _) => Progress::Continue(BankErase::CheckEnd),
            (BankErase::CheckEnd, FlashReply::Status(status)) => {
                if status.eop {
                    Progress::Continue(BankErase::Status)
                } else {
                    Progress::Continue(BankErase::Rearm)
                }
            },
            (BankErase::Rearm, _) => Progress::Continue(BankErase::Await),
            (BankErase::Status, FlashReply::Status(status)) => Progress::Finished(
                bank2_status(status),
            ),
            (other, _) => Progress::Continue(other),
        }
    }
}

/// What is asked for while the end of the erase is waited for, where `early`
/// notifications came in before it.
pub open spec fn wait_script(early: nat) -> Seq<FlashRequest>
    decreases early,
{
    if early == 0 {
        seq![FlashRequest::AwaitInterrupt, FlashRequest::ReadStatus, FlashRequest::ReadStatus]
    } else {
        seq![FlashRequest::AwaitInterrupt, FlashRequest::ReadStatus, FlashRequest::EnableInterrupt]
            + wait_script((early - 1) as nat)
    }
}

/// Each round of waiting is one for the notification and one look at the status.
/// Those that come too early have the interrupt enabled once more, and after the
/// last the status is read again.
pub proof fn law_rounds_of_waiting(early: nat)
    ensures
        wait_script(early).len() == 3 * early + 3,
        forall|k: int|
            0 <= k <= early ==> (#[trigger] wait_script(early)[3 * k]) is AwaitInterrupt,
        forall|k: int|
            0 <= k <= early ==> (#[trigger] wait_script(early)[3 * k + 1]) is ReadStatus,
        forall|k: int|
            0 <= k < early ==> (#[trigger] wait_script(early)[3 * k + 2]) is EnableInterrupt,
        wait_script(early)[3 * early as int + 2] is ReadStatus,
    decreases early,
{
    if early > 0 {
        let rest = wait_script((early - 1) as nat);
        let all = wait_script(early);
        law_rounds_of_waiting((early - 1) as nat);
        assert forall|x: int| 3 <= x < all.len() implies #[trigger] all[x] == rest[x - 3] by {}
        assert forall|k: int| 0 <= k <= early implies (#[trigger] all[3 * k]) is AwaitInterrupt by {
            if k > 0 {
                assert(all[3 * k] == rest[3 * (k - 1)]);
            }
        }
        assert forall|k: int| 0 <= k <= early implies (#[trigger] all[3 * k + 1]) is ReadStatus by {
            if k > 0 {
                assert(all[3 * k + 1] == rest[3 * (k - 1) + 1]);
            }
        }
        assert forall|k: int| 0 <= k < early implies (
        #[trigger] all[3 * k + 2]) is EnableInterrupt by {
            if k > 0 {
                assert(all[3 * k + 2] == rest[3 * (k - 1) + 2]);
            }
        }
        assert(all[3 * early as int + 2] == rest[3 * (early - 1) + 2]);
    }
}

/// The waiting is over as soon as a look finds that the erase is, once the status
/// has been read again.
pub proof fn law_waiting_ends_with_the_erase(replies: Seq<FlashReply>, at: int, k: int)
    requires
        0 <= at,
        0 <= k,
        at + 3 * k + 3 <= replies.len(),
        replies[at + 3 * k + 1] matches FlashReply::Status(status) && status.eop,
    ensures
        run(BankErase::Await, replies, at) is Finished,
    decreases k,
{
    reveal_with_fuel(run, 4);
    if k > 0 && !replies[at + 1]->Status_0.eop {
        assert(at + 3 * k + 1 == at + 3 + 3 * (k - 1) + 1);
        law_waiting_ends_with_the_erase(replies, at + 3, k - 1);
    }
}

proof fn lemma_wait(replies: Seq<FlashReply>, at: int) -> (early: nat)
    requires
        0 <= at,
        run(BankErase::Await, replies, at) is Finished,
        answered(BankErase::Await, replies, at),
    ensures
        at + 3 * early + 3 <= replies.len(),
        requests(BankErase::Await, replies, at) == wait_script(early),
        wait_script(early).len() == 3 * early + 3,
        forall|k: int|
            0 <= k <= early ==> ((#[trigger] replies[at + 3 * k + 1]) matches FlashReply::Status(
                status,
            ) && (status.eop <==> k == early)),
        replies[at + 3 * early + 1] matches FlashReply::Status(status) && status.eop,
        replies[at + 3 * early + 2] matches FlashReply::Status(status) && run(
            BankErase::Await,
            replies,
            at,
        ) == Progress::<BankErase, Result<(), UpdateError>>::Finished(reported(status)),
    decreases replies.len() - at,
{
    reveal_with_fuel(run, 4);
    reveal_with_fuel(requests, 4);
    reveal_with_fuel(answered, 4);
    if replies[at + 1]->Status_0.eop {
        0
    } else {
        let rest = lemma_wait(replies, at + 3);
        assert forall|k: int| 0 <= k <= rest + 1 implies ((
        #[trigger] replies[at + 3 * k + 1]) matches FlashReply::Status(status) && (status.eop <==> k
            == rest + 1)) by {
            if k > 0 {
                assert(replies[at + 3 + 3 * (k - 1) + 1] == replies[at + 3 * k + 1]);
            }
        }
        assert(wait_script((rest + 1) as nat) == seq![
            FlashRequest::AwaitInterrupt,
            FlashRequest::ReadStatus,
            FlashRequest::EnableInterrupt,
        ] + wait_script(rest));
        rest + 1
    }
}

/// What is asked for in order to erase the bank, all in all, where `early`
/// notifications came in before the end.
pub open spec fn erase_script(early: nat) -> Seq<FlashRequest> {
    seq![
        FlashRequest::EnableInterrupt,
        FlashRequest::ModifyControl(interrupt_sources_on()),
        FlashRequest::ModifyControl(erase_started()),
    ] + wait_script(early)
}

/// An erase is started once, with the interrupt enabled beforehand. It is over
/// when the end of the operation has been notified and seen, and comes out as
/// the status that is read thereafter says.
pub proof fn law_erase_waits_for_the_end(replies: Seq<FlashReply>, at: int) -> (early: nat)
    requires
        0 <= at,
        run(BankErase::EnableInterrupt, replies, at) is Finished,
        answered(BankErase::EnableInterrupt, replies, at),
    ensures
        at + erase_script(early).len() <= replies.len(),
        requests(BankErase::EnableInterrupt, replies, at) == erase_script(early),
        erase_script(early).len() == 3 * early + 6,
        forall|k: int|
            0 <= k <= early ==> ((#[trigger] replies[at + 3 * k + 4]) matches FlashReply::Status(
                status,
            ) && (status.eop <==> k == early)),
        replies[at + 3 * early + 5] matches FlashReply::Status(status) && run(
            BankErase::EnableInterrupt,
            replies,
            at,
        ) == Progress::<BankErase, Result<(), UpdateError>>::Finished(reported(status)),
{
    reveal_with_fuel(run, 4);
    reveal_with_fuel(requests, 4);
    reveal_with_fuel(answered, 4);
    let early = lemma_wait(replies, at + 3);
    assert forall|k: int| 0 <= k <= early implies ((
    #[trigger] replies[at + 3 * k + 4]) matches FlashReply::Status(status) && (status.eop <==> k
        == early)) by {
        assert(replies[at + 3 + 3 * k + 1] == replies[at + 3 * k + 4]);
    }
    early
}

} // verus!
