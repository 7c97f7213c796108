//! Unlocking the control register of bank 2 and the option bytes.
use crate::procedure::{requests, run, Procedure, Progress};
use crate::update_server::registers::{FlashReply, FlashRequest};
use vstd::prelude::*;

verus! {

/// The first key of the control register (RM0433 Rev 7, section 4.9.2).
pub const FLASH_KEY1: u32 = 0x4567_0123;

/// The second key of the control register.
pub const FLASH_KEY2: u32 = 0xCDEF_89AB;

/// The first key of the option bytes (RM0433 Rev 7, section 4.9.3).
pub const FLASH_OPT_KEY1: u32 = 0x0819_2A3B;

/// The second key of the option bytes.
pub const FLASH_OPT_KEY2: u32 = 0x4C5D_6E7F;

/// The unlocking, by what is outstanding.
#[derive(Clone, Copy, Debug, PartialEq, Eq)]
pub enum Unlock {
    /// Finding out whether the control register is locked at all.
    CheckLock,
    /// Writing the first key.
    Key1,
    /// Writing the second key.
    Key2,
    /// Writing the first option key.
    OptionKey1,
    /// Writing the second option key.
    OptionKey2,
}

impl Procedure for Unlock {
    type Request = FlashRequest;

    type Reply = FlashReply;

    type Outcome = ();

    open spec fn wf(self) -> bool {
        true
    }

    open spec fn asks(self) -> FlashRequest {
        match self {
            Unlock::CheckLock => FlashRequest::ReadLock,
            Unlock::Key1 => FlashRequest::WriteKey(FLASH_KEY1),
            Unlock::Key2 => FlashRequest::WriteKey(FLASH_KEY2),
            Unlock::OptionKey1 => FlashRequest::WriteOptionKey(FLASH_OPT_KEY1),
            Unlock::OptionKey2 => FlashRequest::WriteOptionKey(FLASH_OPT_KEY2),
        }
    }

    open spec fn accepts(self, reply: FlashReply) -> bool {
        self.asks().answered_by(reply)
    }

    open spec fn after(self, reply: FlashReply) -> Progress<Unlock, ()> {
        match self {
            Unlock::CheckLock => if reply == FlashReply::Locked(true) {
                Progress::Continue(Unlock::Key1)
            } else {
                Progress::Finished(())
            },
            Unlock::Key1 => Progress::Continue(Unlock::Key2),
            Unlock::Key2 => Progress::Continue(Unlock::OptionKey1),
            Unlock::OptionKey1 => Progress::Continue(Unlock::OptionKey2),
            Unlock::OptionKey2 => Progress::Finished(()),
        }
    }

    fn request(&self) -> (request: FlashRequest) {
        match self {
            Unlock::CheckLock => FlashRequest::ReadLock,
            Unlock::Key1 => FlashRequest::WriteKey(FLASH_KEY1),
            Unlock::Key2 => FlashRequest::WriteKey(FLASH_KEY2),
            Unlock::OptionKey1 => FlashRequest::WriteOptionKey(FLASH_OPT_KEY1),
            Unlock::OptionKey2 => FlashRequest::WriteOptionKey(FLASH_OPT_KEY2),
        }
    }

    fn resume(self, reply: FlashReply) -> (progress: Progress<Unlock, ()>) {
        match self {
            Unlock::CheckLock => match reply {
                FlashReply::Locked(true) => Progress::Continue(Unlock::Key1),
                _ => Progress::Finished(()),
            },
            Unlock::Key1 => Progress::Continue(Unlock::Key2),
            Unlock::Key2 => Progress::Continue(Unlock::OptionKey1),
            Unlock::OptionKey1 => Progress::Continue(Unlock::OptionKey2),
            Unlock::OptionKey2 => Progress::Finished(()),
        }
    }
}

/// What is asked for in order to unlock, all in all.
pub open spec fn unlock_script(locked: bool) -> Seq<FlashRequest> {
    if locked {
        seq![
            FlashRequest::ReadLock,
            FlashRequest::WriteKey(FLASH_KEY1),
            FlashRequest::WriteKey(FLASH_KEY2),
            FlashRequest::WriteOptionKey(FLASH_OPT_KEY1),
            FlashRequest::WriteOptionKey(FLASH_OPT_KEY2),
        ]
    } else {
        seq![FlashRequest::ReadLock]
    }
}

/// What is locked is unlocked by the four keys, in order; what is not locked is
/// left alone.
pub proof fn law_keys_are_written_if_locked(replies: Seq<FlashReply>)
    requires
        run(Unlock::CheckLock, replies, 0) is Finished,
    ensures
        requests(Unlock::CheckLock, replies, 0) == unlock_script(
            replies[0] == FlashReply::Locked(true),
        ),
{
    reveal_with_fuel(run, 6);
    reveal_with_fuel(requests, 6);
}

} // verus!
