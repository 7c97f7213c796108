//! The update server itself.
use crate::api::{ClientError, RequestError};
use crate::procedure::{Procedure, Progress};
use crate::update_server::bank::{Bank, FLASH_WORD_BYTES};
use crate::update_server::block::{flash_page, page_stores, zero_extended, WriteBlock};
use crate::update_server::caboose::{ImageFormat, ReadCaboose, HEADER_OFFSET};
use crate::update_server::erase::BankErase;
use crate::update_server::registers::{FlashReply, FlashRequest};
use crate::update_server::swap::SwapBanks;
use crate::update_server::types::{ImageVersion, SlotId, UpdateError, UpdateState};
use crate::update_server::unlock::Unlock;
use vstd::prelude::*;

verus! {

/// What the server is built for.
#[derive(Clone, Copy, Debug, PartialEq, Eq)]
pub struct Config {
    /// Where the alternate bank is.
    pub bank: Bank,
    /// How many flash words are processed at a time.
    pub words_per_block: usize,
    /// What images are recognised by.
    pub format: ImageFormat,
    /// The version of the running image.
    pub version: ImageVersion,
}

impl Config {
    /// The bank is one, and the length of a block is a number of bytes.
    pub open spec fn wf(self) -> bool {
        &&& self.bank.wf()
        &&& self.words_per_block * FLASH_WORD_BYTES <= usize::MAX
    }

    /// The length of a block, in bytes.
    pub open spec fn block_bytes(self) -> int {
        self.words_per_block * FLASH_WORD_BYTES
    }
}

/// The server.
#[derive(Clone, Copy, Debug, PartialEq, Eq)]
pub struct ServerImpl {
    /// What it is built for.
    pub config: Config,
    /// How far the update has come.
    pub state: UpdateState,
    /// The slot that the system boots from next.
    pub pending: SlotId,
}

/// The slot that the system boots from next, by how the bank swap option stands
/// in the option status register and in the option control register. The latter
/// always has how the banks are swapped now.
pub open spec fn pending_slot(swap_bank_opt: bool, swap_bank: bool) -> SlotId {
    if swap_bank_opt == swap_bank {
        SlotId::Active
    } else {
        SlotId::Inactive
    }
}

/// What an update that has come this far says to a call that needs one in
/// progress.
pub open spec fn progress_check(state: UpdateState) -> Result<(), RequestError<UpdateError>> {
    match state {
        UpdateState::NoUpdate => Err(RequestError::Runtime(UpdateError::UpdateNotStarted)),
        UpdateState::InProgress => Ok(()),
        UpdateState::Finished => Err(RequestError::Runtime(UpdateError::UpdateAlreadyFinished)),
    }
}

/// The end of a call: the server as it is then, and what the client is told.
#[derive(Debug, PartialEq, Eq)]
pub struct Completed {
    /// The server.
    pub server: ServerImpl,
    /// The reply.
    pub result: Result<(), RequestError<UpdateError>>,
}

/// What a call is doing to the flash.
#[derive(Debug, PartialEq, Eq)]
pub enum Stage {
    /// Swapping the banks.
    Swap(SwapBanks),
    /// Unlocking the bank, so as to erase it.
    Unlock(Unlock),
    /// Erasing the bank.
    Erase(BankErase),
    /// Programming a block.
    Write(WriteBlock),
}

/// A call in the course of which the flash is worked on.
#[derive(Debug, PartialEq, Eq)]
pub struct Call {
    /// The server that was called.
    pub server: ServerImpl,
    /// What is being done.
    pub stage: Stage,
}

impl ServerImpl {
    /// The server is one.
    pub open spec fn wf(self) -> bool {
        self.config.wf()
    }

    /// A call that leaves the server as it is and is answered at once.
    pub open spec fn answer(self, result: Result<(), RequestError<UpdateError>>) -> Progress<
        Call,
        Completed,
    > {
        Progress::Finished(Completed { server: self, result })
    }

    /// What comes of setting the slot to boot from: nothing, if it is the one
    /// already, and else a swap of the banks.
    pub open spec fn setting(self, slot: SlotId) -> Progress<Call, Completed> {
        if slot == self.pending {
            self.answer(Ok(()))
        } else {
            Progress::Continue(Call { server: self, stage: Stage::Swap(SwapBanks::spec_new()) })
        }
    }

    /// What comes of starting an update: the bank is erased, unless there is an
    /// update already.
    pub open spec fn preparing(self) -> Progress<Call, Completed> {
        match self.state {
            UpdateState::InProgress => self.answer(
                Err(RequestError::Runtime(UpdateError::UpdateInProgress)),
            ),
            UpdateState::Finished => self.answer(
                Err(RequestError::Runtime(UpdateError::UpdateAlreadyFinished)),
            ),
            UpdateState::NoUpdate => Progress::Continue(
                Call { server: self, stage: Stage::Unlock(Unlock::CheckLock) },
            ),
        }
    }

    /// The server once an update, if one is in progress, has moved on to
    /// `state`.
    pub open spec fn moved_to(self, state: UpdateState) -> ServerImpl {
        if self.state is InProgress {
            ServerImpl { state, ..self }
        } else {
            self
        }
    }

    /// The server as it starts, or starts over: no update is known of, and the
    /// slot to boot from is had from the flash controller, in case it was
    /// changed before.
    pub fn new(config: Config, swap_bank_opt: bool, swap_bank: bool) -> (server: ServerImpl)
        ensures
            server == (ServerImpl {
                config,
                state: UpdateState::NoUpdate,
                pending: pending_slot(swap_bank_opt, swap_bank),
            }),
            server.pending is Active <==> swap_bank_opt == swap_bank,
    {
        let pending = if swap_bank_opt == swap_bank {
            SlotId::Active
        } else {
            SlotId::Inactive
        };
        ServerImpl { config, state: UpdateState::NoUpdate, pending }
    }

    /// Sets the slot to boot from. The banks are swapped if that is another
    /// one than before.
    pub fn set_pending_boot_slot(&self, slot: SlotId) -> (progress: Progress<Call, Completed>)
        requires
            self.wf(),
        ensures
            progress == self.setting(slot),
            progress matches Progress::Continue(call) ==> call.wf(),
    {
        if slot != self.pending {
            return Progress::Continue(
                Call { server: *self, stage: Stage::Swap(SwapBanks::new()) },
            );
        }
        Progress::Finished(Completed { server: *self, result: Ok(()) })
    }

    /// The slot to boot from.
    pub fn get_pending_boot_slot(&self) -> (slot: SlotId)
        ensures
            slot == self.pending,
    {
        self.pending
    }

    /// Starts an update: erases the bank. The update is in progress once the
    /// bank is erased without error.
    pub fn prep_image_update(&self) -> (progress: Progress<Call, Completed>)
        requires
            self.wf(),
        ensures
            progress == self.preparing(),
            progress matches Progress::Continue(call) ==> call.wf(),
    {
        let error = match self.state {
            UpdateState::InProgress => UpdateError::UpdateInProgress,
            UpdateState::Finished => UpdateError::UpdateAlreadyFinished,
            UpdateState::NoUpdate => {
                return Progress::Continue(
                    Call { server: *self, stage: Stage::Unlock(Unlock::CheckLock) },
                );
            },
        };
        Progress::Finished(Completed { server: *self, result: Err(RequestError::Runtime(error)) })
    }

    /// Whether an update is in progress, and the error if none is.
    pub fn check_in_progress(&self) -> (result: Result<(), RequestError<UpdateError>>)
        ensures
            result == progress_check(self.state),
            result is Ok <==> self.state is InProgress,
            self.state is NoUpdate ==> result == Err::<(), RequestError<UpdateError>>(
                RequestError::Runtime(UpdateError::UpdateNotStarted),
            ),
            self.state is Finished ==> result == Err::<(), RequestError<UpdateError>>(
                RequestError::Runtime(UpdateError::UpdateAlreadyFinished),
            ),
    {
        match self.state {
            UpdateState::NoUpdate => Err(RequestError::Runtime(UpdateError::UpdateNotStarted)),
            UpdateState::Finished => Err(RequestError::Runtime(UpdateError::UpdateAlreadyFinished)),
            UpdateState::InProgress => Ok(()),
        }
    }

    /// Gives an update up.
    pub fn abort_update(&mut self) -> (result: Result<(), RequestError<UpdateError>>)
        ensures
            result == progress_check(old(self).state),
            *final(self) == old(self).moved_to(UpdateState::NoUpdate),
            final(self).pending == old(self).pending,
            final(self).config == old(self).config,
            final(self).state == if old(self).state is InProgress {
                UpdateState::NoUpdate
            } else {
                old(self).state
            },
            result is Ok <==> old(self).state is InProgress,
    {
        self.check_in_progress()?;
        self.state = UpdateState::NoUpdate;
        Ok(())
    }

    /// The condition under which a block can be taken: it is no longer than a
    /// block may be, and it begins no further than just behind the last flash
    /// word of the bank.
    pub open spec fn takes_block(self, block_num: int, len: int) -> bool {
        &&& len <= self.config.block_bytes()
        &&& WriteBlock::in_reach(
            self.config.bank,
            block_num * self.config.words_per_block,
            self.config.words_per_block as int,
        )
    }

    /// The progress of a call that has come so far with the programming of a
    /// block.
    pub open spec fn writing(
        self,
        progress: Progress<WriteBlock, Result<(), UpdateError>>,
    ) -> Progress<Call, Completed> {
        match progress {
            Progress::Continue(write) => Progress::Continue(
                Call { server: self, stage: Stage::Write(write) },
            ),
            Progress::Finished(Ok(_)) => self.answer(Ok(())),
            Progress::Finished(Err(error)) => self.answer(Err(RequestError::Runtime(error))),
        }
    }

    /// A call has come so far: it sets out to program the page that a block,
    /// filled up with zeros, is laid out as.
    pub open spec fn sets_out(
        self,
        block_num: usize,
        block: Seq<u8>,
        progress: Progress<Call, Completed>,
    ) -> bool {
        exists|page: Vec<[u32; 8]>|
            #![trigger page@]
            {
                &&& page@.len() == self.config.words_per_block
                &&& page_stores(page@, zero_extended(block, self.config.block_bytes()))
                &&& progress == self.writing(
                    WriteBlock::from(
                        self.config.bank,
                        (block_num * self.config.words_per_block) as usize,
                        page,
                        0,
                    ),
                )
            }
    }

    /// Programs a block, which the client has lent; `None` if it could not be
    /// had from it.
    pub fn write_one_block(&self, block_num: usize, block: Option<&[u8]>) -> (progress: Progress<
        Call,
        Completed,
    >)
        requires
            self.wf(),
            self.state is InProgress && block is Some ==> self.takes_block(
                block_num as int,
                block->0@.len() as int,
            ),
        ensures
            match (progress_check(self.state), block) {
                (Err(error), _) => progress == self.answer(Err(error)),
                (Ok(_), None) => progress == self.answer(
                    Err(RequestError::Fail(ClientError::WentAway)),
                ),
                (Ok(_), Some(bytes)) => self.sets_out(block_num, bytes@, progress),
            },
            progress matches Progress::Continue(call) ==> call.wf(),
    {
        if let Err(error) = self.check_in_progress() {
            return Progress::Finished(Completed { server: *self, result: Err(error) });
        }
        let bytes = match block {
            Some(bytes) => bytes,
            None => {
                return Progress::Finished(
                    Completed {
                        server: *self,
                        result: Err(RequestError::Fail(ClientError::WentAway)),
                    },
                );
            },
        };
        let page = flash_page(bytes, self.config.words_per_block);
        let first: usize = block_num * self.config.words_per_block;
        match WriteBlock::start(self.config.bank, first, page, 0) {
            Progress::Continue(write) => Progress::Continue(
                Call { server: *self, stage: Stage::Write(write) },
            ),
            Progress::Finished(Ok(_)) => Progress::Finished(
                Completed { server: *self, result: Ok(()) },
            ),
            Progress::Finished(Err(error)) => Progress::Finished(
                Completed { server: *self, result: Err(RequestError::Runtime(error)) },
            ),
        }
    }

    /// Ends an update.
    pub fn finish_image_update(&mut self) -> (result: Result<(), RequestError<UpdateError>>)
        ensures
            result == progress_check(old(self).state),
            *final(self) == old(self).moved_to(UpdateState::Finished),
            final(self).pending == old(self).pending,
            final(self).config == old(self).config,
            final(self).state == if old(self).state is InProgress {
                UpdateState::Finished
            } else {
                old(self).state
            },
            result is Ok <==> old(self).state is InProgress,
    {
        self.check_in_progress()?;
        self.state = UpdateState::Finished;
        Ok(())
    }

    /// The length of a block.
    pub fn block_size(&self) -> (size: usize)
        requires
            self.wf(),
        ensures
            size == self.config.block_bytes(),
            size == 32 * self.config.words_per_block,
    {
        self.config.words_per_block * FLASH_WORD_BYTES
    }

    /// The version of the running image.
    pub fn current_version(&self) -> (version: ImageVersion)
        ensures
            version == self.config.version,
    {
        self.config.version
    }

    /// Sets out to read the caboose value `name` for a client that has room
    /// for `lease_len` bytes.
    pub fn read_caboose_value(&self, name: [u8; 4], lease_len: usize) -> (reading: ReadCaboose)
        requires
            self.config.bank.base + HEADER_OFFSET <= u32::MAX,
        ensures
            reading == ReadCaboose::spec_new(
                self.config.bank,
                self.config.format,
                name,
                lease_len,
            ),
            reading.bank == self.config.bank,
            reading.format == self.config.format,
            reading.name == name,
            reading.lease_len == lease_len,
            reading.wf(),
    {
        ReadCaboose::new(self.config.bank, self.config.format, name, lease_len)
    }

    /// The notifications that the server listens for: none.
    pub fn current_notification_mask(&self) -> (mask: u32)
        ensures
            mask == 0,
    {
        0
    }
}

impl Procedure for Call {
    type Request = FlashRequest;

    type Reply = FlashReply;

    type Outcome = Completed;

    /// The bank is erased only while there is no update, and programmed only
    /// while there is one.
    open spec fn wf(self) -> bool {
        &&& self.server.wf()
        &&& match self.stage {
            Stage::Swap(_) => true,
            Stage::Unlock(_) => self.server.state is NoUpdate,
            Stage::Erase(_) => self.server.state is NoUpdate,
            Stage::Write(write) => {
                &&& self.server.state is InProgress
                &&& write.bank == self.server.config.bank
                &&& write.wf()
            },
        }
    }

    open spec fn asks(self) -> FlashRequest {
        match self.stage {
            Stage::Swap(swap) => swap.asks(),
            Stage::Unlock(unlock) => unlock.asks(),
            Stage::Erase(erase) => erase.asks(),
            Stage::Write(write) => write.asks(),
        }
    }

    open spec fn accepts(self, reply: FlashReply) -> bool {
        self.asks().answered_by(reply)
    }

    open spec fn after(self, reply: FlashReply) -> Progress<Call, Completed> {
        match self.stage {
            Stage::Swap(swap) => match swap.after(reply) {
                Progress::Continue(next) => Progress::Continue(
                    Call { server: self.server, stage: Stage::Swap(next) },
                ),
                Progress::Finished(_) => (ServerImpl {
                    pending: self.server.pending.spec_other(),
                    ..self.server
                }).answer(Ok(())),
            },
            Stage::Unlock(unlock) => match unlock.after(reply) {
                Progress::Continue(next) => Progress::Continue(
                    Call { server: self.server, stage: Stage::Unlock(next) },
                ),
                Progress::Finished(_) => Progress::Continue(
                    Call { server: self.server, stage: Stage::Erase(BankErase::EnableInterrupt) },
                ),
            },
            Stage::Erase(erase) => match erase.after(reply) {
                Progress::Continue(next) => Progress::Continue(
                    Call { server: self.server, stage: Stage::Erase(next) },
                ),
                Progress::Finished(Ok(_)) => (ServerImpl {
                    state: UpdateState::InProgress,
                    ..self.server
                }).answer(Ok(())),
                Progress::Finished(Err(error)) => self.server.answer(
                    Err(RequestError::Runtime(error)),
                ),
            },
            Stage::Write(write) => self.server.writing(write.after(reply)),
        }
    }

    fn request(&self) -> (request: FlashRequest) {
        match &self.stage {
            Stage::Swap(swap) => swap.request(),
            Stage::Unlock(unlock) => unlock.request(),
            Stage::Erase(erase) => erase.request(),
            Stage::Write(write) => write.request(),
        }
    }

    fn resume(self, reply: FlashReply) -> (progress: Progress<Call, Completed>) {
        let mut server = self.server;
        match self.stage {
            Stage::Swap(swap) => match swap.resume(reply) {
                Progress::Continue(next) => Progress::Continue(
                    Call { server, stage: Stage::Swap(next) },
                ),
                Progress::Finished(_) => {
                    server.pending = server.pending.other();
                    Progress::Finished(Completed { server, result: Ok(()) })
                },
            },
            Stage::Unlock(unlock) => match unlock.resume(reply) {
                Progress::Continue(next) => Progress::Continue(
                    Call { server, stage: Stage::Unlock(next) },
                ),
                Progress::Finished(_) => Progress::Continue(
                    Call { server, stage: Stage::Erase(BankErase::EnableInterrupt) },
                ),
            },
            Stage::Erase(erase) => match erase.resume(reply) {
                Progress::Continue(next) => Progress::Continue(
                    Call { server, stage: Stage::Erase(next) },
                ),
                Progress::Finished(Ok(_)) => {
                    server.state = UpdateState::InProgress;
                    Progress::Finished(Completed { server, result: Ok(()) })
                },
                Progress::Finished(Err(error)) => Progress::Finished(
                    Completed { server, result: Err(RequestError::Runtime(error)) },
                ),
            },
            Stage::Write(write) => match write.resume(reply) {
                Progress::Continue(next) => Progress::Continue(
                    Call { server, stage: Stage::Write(next) },
                ),
                Progress::Finished(Ok(_)) => Progress::Finished(
                    Completed { server, result: Ok(()) },
                ),
                Progress::Finished(Err(error)) => Progress::Finished(
                    Completed { server, result: Err(RequestError::Runtime(error)) },
                ),
            },
        }
    }
}

} // verus!
