//! Swapping the banks for the next boot (RM0433 Rev 7, section 4.3.13).
use crate::procedure::{answered, requests, run, Procedure, Progress};
use crate::update_server::registers::{FlashReply, FlashRequest};
use crate::update_server::unlock::{unlock_script, Unlock};
use vstd::prelude::*;

verus! {

/// The swap, by what is outstanding.
#[derive(Clone, Copy, Debug, PartialEq, Eq)]
pub enum SwapBanks {
    /// Unlocking.
    Unlocking(Unlock),
    /// Finding out how the option stands.
    ReadOption,
    /// Programming the option to this value.
    Program(bool),
    /// Starting the change of the option bytes.
    Start,
    /// Waiting for the change to be over.
    Busy,
}

impl SwapBanks {
    /// The swap at its beginning.
    pub open spec fn spec_new() -> SwapBanks {
        SwapBanks::Unlocking(Unlock::CheckLock)
    }

    /// The swap at its beginning.
    pub fn new() -> (swap: SwapBanks)
        ensures
            swap == SwapBanks::spec_new(),
    {
        SwapBanks::Unlocking(Unlock::CheckLock)
    }
}

impl Procedure for SwapBanks {
    type Request = FlashRequest;

    type Reply = FlashReply;

    type Outcome = ();

    open spec fn wf(self) -> bool {
        true
    }

    open spec fn asks(self) -> FlashRequest {
        match self {
            SwapBanks::Unlocking(unlock) => unlock.asks(),
            SwapBanks::ReadOption => FlashRequest::ReadOptionStatus,
            SwapBanks::Program(value) => FlashRequest::ProgramSwapBank(value),
            SwapBanks::Start => FlashRequest::StartOptionChange,
            SwapBanks::Busy => FlashRequest::ReadOptionStatus,
        }
    }

    open spec fn accepts(self, reply: FlashReply) -> bool {
        self.asks().answered_by(reply)
    }

    open spec fn after(self, reply: FlashReply) -> Progress<SwapBanks, ()> {
        match self {
            SwapBanks::Unlocking(unlock) => match unlock.after(reply) {
                Progress::Continue(next) => Progress::Continue(SwapBanks::Unlocking(next)),
                Progress::Finished(_) => Progress::Continue(SwapBanks::ReadOption),
            },
            SwapBanks::ReadOption => Progress::Continue(
                SwapBanks::Program(!reply->Options_0.swap_bank_opt),
            ),
            SwapBanks::Program(_) => Progress::Continue(SwapBanks::Start),
            SwapBanks::Start => Progress::Continue(SwapBanks::Busy),
            SwapBanks::Busy => if reply->Options_0.opt_busy {
                Progress::Continue(SwapBanks::Busy)
            } else {
                Progress::Finished(())
            },
        }
    }

    fn request(&self) -> (request: FlashRequest) {
        match self {
            SwapBanks::Unlocking(unlock) => unlock.request(),
            SwapBanks::ReadOption => FlashRequest::ReadOptionStatus,
            SwapBanks::Program(value) => FlashRequest::ProgramSwapBank(*value),
            SwapBanks::Start => FlashRequest::StartOptionChange,
            SwapBanks::Busy => FlashRequest::ReadOptionStatus,
        }
    }

    fn resume(self, reply: FlashReply) -> (progress: Progress<SwapBanks, ()>) {
        match (self, reply) {
            (SwapBanks::Unlocking(unlock), _) => match unlock.resume(reply) {
                Progress::Continue(next) => Progress::Continue(SwapBanks::Unlocking(next)),
                Progress::Finished(_) => Progress::Continue(SwapBanks::ReadOption),
            },
            (SwapBanks::ReadOption, FlashReply::Options(options)) => {
                if options.swap_bank_opt {
                    Progress::Continue(SwapBanks::Program(false))
                } else {
                    Progress::Continue(SwapBanks::Program(true))
                }
            },
            (SwapBanks::Program(_), _) => Progress::Continue(SwapBanks::Start),
            (SwapBanks::Start, _) => Progress::Continue(SwapBanks::Busy),
            (SwapBanks::Busy, FlashReply::Options(options)) => {
                if options.opt_busy {
                    Progress::Continue(SwapBanks::Busy)
                } else {
                    Progress::Finished(())
                }
            },
            (other, _) => Progress::Continue(other),
        }
    }
}

/// What is asked for in order to swap the banks, all in all, where the option
/// stood as `swap_bank_opt` and the change was looked at `polls` times.
pub open spec fn swap_script(locked: bool, swap_bank_opt: bool, polls: nat) -> Seq<FlashRequest> {
    unlock_script(locked) + seq![
        FlashRequest::ReadOptionStatus,
        FlashRequest::ProgramSwapBank(!swap_bank_opt),
        FlashRequest::StartOptionChange,
    ] + Seq::new(polls, |i: int| FlashRequest::ReadOptionStatus)
}

pub proof fn lemma_busy_polls(replies: Seq<FlashReply>, at: int) -> (polls: nat)
    requires
        0 <= at,
        run(SwapBanks::Busy, replies, at) is Finished,
        answered(SwapBanks::Busy, replies, at),
    ensures
        polls > 0,
        at + polls <= replies.len(),
        requests(SwapBanks::Busy, replies, at) == Seq::new(
            polls,
            |i: int| FlashRequest::ReadOptionStatus,
        ),
        forall|i: int|
            at <= i < at + polls ==> ((#[trigger] replies[i]) matches FlashReply::Options(options)
                && (options.opt_busy <==> i < at + polls - 1)),
    decreases replies.len() - at,
{
    if SwapBanks::Busy.after(replies[at]) is Finished {
        1
    } else {
        let rest = lemma_busy_polls(replies, at + 1);
        rest + 1
    }
}

/// The waiting is over as soon as a look finds that the change is.
pub proof fn law_waiting_ends_with_the_change(replies: Seq<FlashReply>, at: int, i: int)
    requires
        0 <= at <= i < replies.len(),
        replies[i] matches FlashReply::Options(options) && !options.opt_busy,
    ensures
        run(SwapBanks::Busy, replies, at) is Finished,
    decreases i - at,
{
    if at < i && SwapBanks::Busy.after(replies[at]) is Continue {
        law_waiting_ends_with_the_change(replies, at + 1, i);
    }
}

/// Swapping unlocks, programs the bank swap option to the opposite of how it
/// stands, starts the change, and is over when the change is.
pub proof fn law_swap_programs_the_opposite(replies: Seq<FlashReply>) -> (polls: nat)
    requires
        run(SwapBanks::spec_new(), replies, 0) is Finished,
        answered(SwapBanks::spec_new(), replies, 0),
    ensures
        ({
            let locked = replies[0] == FlashReply::Locked(true);
            let read: int = if locked {
                5
            } else {
                1
            };
            &&& polls > 0
            &&& read + 3 + polls <= replies.len()
            &&& replies[read] matches FlashReply::Options(options) && requests(
                SwapBanks::spec_new(),
                replies,
                0,
            ) == swap_script(locked, options.swap_bank_opt, polls)
            &&& replies[read + 2 + polls] matches FlashReply::Options(options)
                && !options.opt_busy
        }),
{
    reveal_with_fuel(run, 9);
    reveal_with_fuel(requests, 9);
    reveal_with_fuel(answered, 9);
    let locked = replies[0] == FlashReply::Locked(true);
    let polls = if locked {
        lemma_busy_polls(replies, 8)
    } else {
        lemma_busy_polls(replies, 4)
    };
    polls
}

} // verus!
