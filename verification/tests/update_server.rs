use hubris_servers::api::{ClientError, RequestError};
use hubris_servers::procedure::{Procedure, Progress};
use hubris_servers::update_server::bank::Bank;
use hubris_servers::update_server::block::flash_page;
use hubris_servers::update_server::caboose::ImageFormat;
use hubris_servers::update_server::program::write_word;
use hubris_servers::update_server::registers::{
    BankStatus, ControlChange, FlashReply, FlashRequest, OptionStatus,
};
use hubris_servers::update_server::server::{Call, Completed, Config, ServerImpl};
use hubris_servers::update_server::status::bank2_status;
use hubris_servers::update_server::types::{ImageVersion, SlotId, UpdateError, UpdateState};
use hubris_servers::update_server::unlock::Unlock;

const BASE: u32 = 0x0810_0000;

const QUIET: BankStatus = BankStatus {
    qw: false,
    eop: false,
    dbeccerr: false,
    sneccerr1: false,
    rdserr: false,
    rdperr: false,
    operr: false,
    incerr: false,
    strberr: false,
    pgserr: false,
    wrperr: false,
};

/// Five flash words, of which the last block has only one.
const CONFIG: Config = Config {
    bank: Bank { base: BASE, end: BASE + 5 * 32 },
    words_per_block: 2,
    format: ImageFormat { header_magic: 0x6405_5ADE, caboose_magic: 0xCAB0_0005 },
    version: ImageVersion { epoch: 3, version: 7 },
};

/// A flash controller that does as it is told.
struct Flash {
    locked: bool,
    swap_bank_opt: bool,
    busy: u32,
    queued: u32,
    early: u32,
    status: BankStatus,
    /// The address from which on writes are protected.
    protected: u32,
    memory: Vec<u8>,
    log: Vec<FlashRequest>,
}

impl Flash {
    fn new() -> Flash {
        Flash {
            locked: true,
            swap_bank_opt: false,
            busy: 2,
            queued: 0,
            early: 1,
            status: QUIET,
            protected: u32::MAX,
            memory: vec![0xFF; 5 * 32],
            log: Vec::new(),
        }
    }

    fn perform(&mut self, request: FlashRequest) -> FlashReply {
        self.log.push(request);
        match request {
            FlashRequest::ReadLock => FlashReply::Locked(self.locked),
            FlashRequest::WriteOptionKey(0x4C5D_6E7F) => {
                self.locked = false;
                FlashReply::Done
            }
            FlashRequest::ReadOptionStatus => {
                let opt_busy = self.busy > 0;
                self.busy = self.busy.saturating_sub(1);
                FlashReply::Options(OptionStatus { swap_bank_opt: self.swap_bank_opt, opt_busy })
            }
            FlashRequest::ProgramSwapBank(value) => {
                self.swap_bank_opt = value;
                FlashReply::Done
            }
            FlashRequest::ReadStatus => {
                let mut status = self.status;
                status.qw = self.queued > 0;
                status.eop = self.early == 0;
                self.queued = self.queued.saturating_sub(1);
                self.early = self.early.saturating_sub(1);
                FlashReply::Status(status)
            }
            FlashRequest::WriteWord { address, word } => {
                let offset = (address - BASE) as usize;
                self.memory[offset..offset + 4].copy_from_slice(&word.to_ne_bytes());
                self.queued = 2;
                self.status.wrperr |= address >= self.protected;
                FlashReply::Done
            }
            _ => FlashReply::Done,
        }
    }

    fn drive<P: Procedure<Request = FlashRequest, Reply = FlashReply>>(&mut self, mut p: P) -> P::Outcome {
        loop {
            let reply = self.perform(p.request());
            match p.resume(reply) {
                Progress::Continue(next) => p = next,
                Progress::Finished(outcome) => return outcome,
            }
        }
    }

    fn finish(&mut self, progress: Progress<Call, Completed>) -> Completed {
        match progress {
            Progress::Continue(call) => self.drive(call),
            Progress::Finished(done) => done,
        }
    }
}

fn server(state: UpdateState) -> ServerImpl {
    ServerImpl { config: CONFIG, state, pending: SlotId::Active }
}

fn refused(error: UpdateError) -> Result<(), RequestError<UpdateError>> {
    Err(RequestError::Runtime(error))
}

const NO_CHANGE: ControlChange = ControlChange {
    psize: None,
    pg: None,
    start: None,
    ber: None,
    eopie: None,
    wrperrie: None,
    pgserrie: None,
    strberrie: None,
    incerrie: None,
    operrie: None,
};

#[test]
fn keys_are_written_to_a_locked_bank() {
    let mut flash = Flash::new();
    flash.drive(Unlock::CheckLock);
    assert_eq!(
        flash.log,
        vec![
            FlashRequest::ReadLock,
            FlashRequest::WriteKey(0x4567_0123),
            FlashRequest::WriteKey(0xCDEF_89AB),
            FlashRequest::WriteOptionKey(0x0819_2A3B),
            FlashRequest::WriteOptionKey(0x4C5D_6E7F),
        ]
    );
    assert!(!flash.locked);
}

#[test]
fn keys_are_not_written_to_an_unlocked_bank() {
    let mut flash = Flash::new();
    flash.locked = false;
    flash.drive(Unlock::CheckLock);
    assert_eq!(flash.log, vec![FlashRequest::ReadLock]);
}

#[test]
fn status_errors_have_an_order_of_precedence() {
    let mut status = QUIET;
    assert_eq!(bank2_status(status), Ok(()));
    status.wrperr = true;
    assert_eq!(bank2_status(status), Err(UpdateError::WriteProtErr));
    status.pgserr = true;
    assert_eq!(bank2_status(status), Err(UpdateError::ProgSeqErr));
    status.strberr = true;
    assert_eq!(bank2_status(status), Err(UpdateError::StrobeErr));
    status.incerr = true;
    assert_eq!(bank2_status(status), Err(UpdateError::InconsistencyErr));
    status.operr = true;
    assert_eq!(bank2_status(status), Err(UpdateError::WriteEraseErr));
    status.rdperr = true;
    assert_eq!(bank2_status(status), Err(UpdateError::ReadProtErr));
    status.rdserr = true;
    assert_eq!(bank2_status(status), Err(UpdateError::SecureErr));
    status.sneccerr1 = true;
    assert_eq!(bank2_status(status), Err(UpdateError::EccSingleErr));
    status.dbeccerr = true;
    assert_eq!(bank2_status(status), Err(UpdateError::EccDoubleErr));
}

#[test]
fn end_and_queue_flags_are_no_errors() {
    let mut status = QUIET;
    status.qw = true;
    status.eop = true;
    assert_eq!(bank2_status(status), Ok(()));
}

#[test]
fn the_pending_slot_comes_from_the_flash_controller() {
    assert_eq!(ServerImpl::new(CONFIG, false, false).get_pending_boot_slot(), SlotId::Active);
    assert_eq!(ServerImpl::new(CONFIG, true, true).get_pending_boot_slot(), SlotId::Active);
    assert_eq!(ServerImpl::new(CONFIG, true, false).get_pending_boot_slot(), SlotId::Inactive);
    assert_eq!(ServerImpl::new(CONFIG, false, true).get_pending_boot_slot(), SlotId::Inactive);
    assert_eq!(ServerImpl::new(CONFIG, false, true).state, UpdateState::NoUpdate);
}

#[test]
fn setting_the_other_slot_swaps_the_banks() {
    let mut flash = Flash::new();
    flash.locked = false;
    flash.busy = 3;
    let before = server(UpdateState::Finished);
    let done = flash.finish(before.set_pending_boot_slot(SlotId::Inactive));
    assert_eq!(done.result, Ok(()));
    assert_eq!(done.server, ServerImpl { pending: SlotId::Inactive, ..before });
    assert_eq!(
        flash.log,
        vec![
            FlashRequest::ReadLock,
            FlashRequest::ReadOptionStatus,
            FlashRequest::ProgramSwapBank(true),
            FlashRequest::StartOptionChange,
            FlashRequest::ReadOptionStatus,
            FlashRequest::ReadOptionStatus,
            FlashRequest::ReadOptionStatus,
        ]
    );
}

#[test]
fn setting_the_slot_that_is_set_does_nothing() {
    let before = server(UpdateState::NoUpdate);
    assert_eq!(
        before.set_pending_boot_slot(SlotId::Active),
        Progress::Finished(Completed { server: before, result: Ok(()) })
    );
}

#[test]
fn swapping_twice_restores_the_option() {
    let mut flash = Flash::new();
    let first = flash.finish(server(UpdateState::NoUpdate).set_pending_boot_slot(SlotId::Inactive));
    assert!(flash.swap_bank_opt);
    let second = flash.finish(first.server.set_pending_boot_slot(SlotId::Active));
    assert!(!flash.swap_bank_opt);
    assert_eq!(second.server, server(UpdateState::NoUpdate));
}

#[test]
fn a_server_that_starts_over_finds_the_pending_slot() {
    let mut flash = Flash::new();
    flash.swap_bank_opt = true;
    let before = ServerImpl::new(CONFIG, flash.swap_bank_opt, true);
    assert_eq!(before.pending, SlotId::Active);
    let done = flash.finish(before.set_pending_boot_slot(SlotId::Inactive));
    let again = ServerImpl::new(CONFIG, flash.swap_bank_opt, true);
    assert_eq!(again.get_pending_boot_slot(), done.server.get_pending_boot_slot());
}

#[test]
fn preparing_erases_the_bank() {
    let mut flash = Flash::new();
    flash.locked = false;
    let done = flash.finish(server(UpdateState::NoUpdate).prep_image_update());
    assert_eq!(done.result, Ok(()));
    assert_eq!(done.server, server(UpdateState::InProgress));
    let sources = ControlChange {
        eopie: Some(true),
        wrperrie: Some(true),
        pgserrie: Some(true),
        strberrie: Some(true),
        incerrie: Some(true),
        operrie: Some(true),
        ..NO_CHANGE
    };
    let launch = ControlChange { start: Some(true), ber: Some(true), ..NO_CHANGE };
    assert_eq!(
        flash.log,
        vec![
            FlashRequest::ReadLock,
            FlashRequest::EnableInterrupt,
            FlashRequest::ModifyControl(sources),
            FlashRequest::ModifyControl(launch),
            FlashRequest::AwaitInterrupt,
            FlashRequest::ReadStatus,
            FlashRequest::EnableInterrupt,
            FlashRequest::AwaitInterrupt,
            FlashRequest::ReadStatus,
            FlashRequest::ReadStatus,
        ]
    );
}

#[test]
fn preparing_unlocks_a_locked_bank() {
    let mut flash = Flash::new();
    flash.early = 0;
    let done = flash.finish(server(UpdateState::NoUpdate).prep_image_update());
    assert_eq!(done.server.state, UpdateState::InProgress);
    assert_eq!(flash.log.len(), 11);
    assert_eq!(flash.log[4], FlashRequest::WriteOptionKey(0x4C5D_6E7F));
    assert_eq!(flash.log[5], FlashRequest::EnableInterrupt);
}

#[test]
fn a_failed_erase_starts_no_update() {
    let mut flash = Flash::new();
    flash.status.operr = true;
    let done = flash.finish(server(UpdateState::NoUpdate).prep_image_update());
    assert_eq!(done.result, refused(UpdateError::WriteEraseErr));
    assert_eq!(done.server, server(UpdateState::NoUpdate));
}

#[test]
fn preparing_is_refused_while_there_is_an_update() {
    let running = server(UpdateState::InProgress);
    assert_eq!(
        running.prep_image_update(),
        Progress::Finished(Completed {
            server: running,
            result: refused(UpdateError::UpdateInProgress),
        })
    );
    let over = server(UpdateState::Finished);
    assert_eq!(
        over.prep_image_update(),
        Progress::Finished(Completed {
            server: over,
            result: refused(UpdateError::UpdateAlreadyFinished),
        })
    );
}

#[test]
fn aborting_needs_an_update_in_progress() {
    let mut idle = server(UpdateState::NoUpdate);
    assert_eq!(idle.abort_update(), refused(UpdateError::UpdateNotStarted));
    assert_eq!(idle.state, UpdateState::NoUpdate);
    let mut over = server(UpdateState::Finished);
    assert_eq!(over.abort_update(), refused(UpdateError::UpdateAlreadyFinished));
    assert_eq!(over.state, UpdateState::Finished);
    let mut running = server(UpdateState::InProgress);
    assert_eq!(running.abort_update(), Ok(()));
    assert_eq!(running.state, UpdateState::NoUpdate);
    let mut flash = Flash::new();
    assert_eq!(flash.finish(running.prep_image_update()).result, Ok(()));
}

#[test]
fn finishing_needs_an_update_in_progress() {
    let mut idle = server(UpdateState::NoUpdate);
    assert_eq!(idle.finish_image_update(), refused(UpdateError::UpdateNotStarted));
    let mut running = server(UpdateState::InProgress);
    assert_eq!(running.finish_image_update(), Ok(()));
    assert_eq!(running.state, UpdateState::Finished);
    assert_eq!(running.finish_image_update(), refused(UpdateError::UpdateAlreadyFinished));
    assert_eq!(running.state, UpdateState::Finished);
}

#[test]
fn writing_needs_an_update_in_progress() {
    let bytes = [1u8; 64];
    for block in [Some(&bytes[..]), None] {
        let idle = server(UpdateState::NoUpdate);
        assert_eq!(
            idle.write_one_block(0, block),
            Progress::Finished(Completed {
                server: idle,
                result: refused(UpdateError::UpdateNotStarted),
            })
        );
        let over = server(UpdateState::Finished);
        assert_eq!(
            over.write_one_block(0, block),
            Progress::Finished(Completed {
                server: over,
                result: refused(UpdateError::UpdateAlreadyFinished),
            })
        );
    }
}

#[test]
fn a_block_that_cannot_be_had_is_not_written() {
    let running = server(UpdateState::InProgress);
    assert_eq!(
        running.write_one_block(0, None),
        Progress::Finished(Completed {
            server: running,
            result: Err(RequestError::Fail(ClientError::WentAway)),
        })
    );
}

#[test]
fn a_block_is_laid_out_as_flash_words() {
    let bytes: Vec<u8> = (1..=36).collect();
    let page = flash_page(&bytes, 2);
    assert_eq!(page.len(), 2);
    assert_eq!(page[0][0], u32::from_ne_bytes([1, 2, 3, 4]));
    assert_eq!(page[0][7], u32::from_ne_bytes([29, 30, 31, 32]));
    assert_eq!(page[1][0], u32::from_ne_bytes([33, 34, 35, 36]));
    assert_eq!(page[1][1..], [0; 7]);
    assert_eq!(flash_page(&[], 0), Vec::<[u32; 8]>::new());
}

#[test]
fn a_written_block_is_in_the_bank() {
    let mut flash = Flash::new();
    let bytes: Vec<u8> = (0..64).map(|i| (3 * i) as u8).collect();
    let running = server(UpdateState::InProgress);
    let done = flash.finish(running.write_one_block(1, Some(&bytes)));
    assert_eq!(done, Completed { server: running, result: Ok(()) });
    assert_eq!(flash.memory[..64], [0xFF; 64]);
    assert_eq!(flash.memory[64..128], bytes[..]);
    assert_eq!(flash.memory[128..], [0xFF; 32]);
}

#[test]
fn a_short_block_is_filled_up_with_zeros() {
    let mut flash = Flash::new();
    let running = server(UpdateState::InProgress);
    let done = flash.finish(running.write_one_block(0, Some(&[9, 8, 7, 6, 5])));
    assert_eq!(done.result, Ok(()));
    assert_eq!(flash.memory[..5], [9, 8, 7, 6, 5]);
    assert_eq!(flash.memory[5..64], [0; 59]);
    assert_eq!(flash.memory[64..], [0xFF; 96]);
}

#[test]
fn a_short_block_is_written_as_a_padded_one() {
    let running = server(UpdateState::InProgress);
    let mut padded = [0; 64];
    padded[..3].copy_from_slice(&[1, 2, 3]);
    assert_eq!(flash_page(&[1, 2, 3], 2), flash_page(&padded, 2));
    for block_num in [0, 2] {
        let mut one = Flash::new();
        let mut other = Flash::new();
        let short = one.finish(running.write_one_block(block_num, Some(&[1, 2, 3])));
        let long = other.finish(running.write_one_block(block_num, Some(&padded)));
        assert_eq!(short, long);
        assert_eq!(one.log, other.log);
    }
}

#[test]
fn an_empty_block_is_written_as_zeros() {
    assert_eq!(flash_page(&[], 2), vec![[0; 8], [0; 8]]);
    let mut flash = Flash::new();
    let done = flash.finish(server(UpdateState::InProgress).write_one_block(0, Some(&[])));
    assert_eq!(done.result, Ok(()));
    assert_eq!(flash.memory[..64], [0; 64]);
    assert_eq!(flash.memory[64..], [0xFF; 96]);
}

#[test]
fn a_block_that_leaves_the_bank_is_written_as_far_as_it_goes() {
    let mut flash = Flash::new();
    let running = server(UpdateState::InProgress);
    let done = flash.finish(running.write_one_block(2, Some(&[4; 64])));
    assert_eq!(done, Completed { server: running, result: refused(UpdateError::BadLength) });
    assert_eq!(flash.memory[..128], [0xFF; 128]);
    assert_eq!(flash.memory[128..], [4; 32]);
}

#[test]
fn a_block_just_behind_the_bank_is_too_long() {
    let config = Config { bank: Bank { base: BASE, end: BASE + 64 }, ..CONFIG };
    let running = ServerImpl { config, state: UpdateState::InProgress, pending: SlotId::Active };
    assert_eq!(
        running.write_one_block(1, Some(&[1; 64])),
        Progress::Finished(Completed { server: running, result: refused(UpdateError::BadLength) })
    );
}

#[test]
fn an_error_ends_the_programming_of_a_block() {
    let mut flash = Flash::new();
    flash.status.pgserr = true;
    let running = server(UpdateState::InProgress);
    let done = flash.finish(running.write_one_block(0, Some(&[4; 64])));
    assert_eq!(done, Completed { server: running, result: refused(UpdateError::ProgSeqErr) });
    assert_eq!(flash.memory[..32], [4; 32]);
    assert_eq!(flash.memory[32..], [0xFF; 128]);
}

#[test]
fn what_comes_before_an_error_is_in_the_bank() {
    let mut flash = Flash::new();
    flash.protected = BASE + 32;
    let config = Config { words_per_block: 3, ..CONFIG };
    let running = ServerImpl { config, state: UpdateState::InProgress, pending: SlotId::Active };
    let done = flash.finish(running.write_one_block(0, Some(&[6; 96])));
    assert_eq!(done, Completed { server: running, result: refused(UpdateError::WriteProtErr) });
    assert_eq!(flash.memory[..64], [6; 64]);
    assert_eq!(flash.memory[64..], [0xFF; 96]);
}

#[test]
fn five_bytes_make_two_words() {
    let mut flash = Flash::new();
    let done =
        flash.finish(server(UpdateState::InProgress).write_one_block(0, Some(&[1, 2, 3, 4, 5])));
    assert_eq!(done.result, Ok(()));
    let mut stored = Vec::new();
    for request in &flash.log {
        if let FlashRequest::WriteWord { address, word } = request {
            stored.push((*address, *word));
        }
    }
    assert_eq!(stored.len(), 16);
    assert_eq!(stored[0], (BASE, u32::from_ne_bytes([1, 2, 3, 4])));
    assert_eq!(stored[1], (BASE + 4, u32::from_ne_bytes([5, 0, 0, 0])));
    for (i, (address, word)) in stored.into_iter().enumerate().skip(2) {
        assert_eq!((address, word), (BASE + 4 * i as u32, 0));
    }
}

#[test]
fn a_flash_word_is_programmed_in_one_sequence() {
    let mut flash = Flash::new();
    let bank = CONFIG.bank;
    let words = [10, 11, 12, 13, 14, 15, 16, 17];
    let write = write_word(&bank, 4, words).unwrap();
    assert_eq!(flash.drive(write), Ok(()));
    let programming = ControlChange {
        psize: Some(0b11),
        pg: Some(true),
        eopie: Some(false),
        wrperrie: Some(false),
        pgserrie: Some(false),
        strberrie: Some(false),
        incerrie: Some(false),
        operrie: Some(false),
        ..NO_CHANGE
    };
    let mut expected = vec![FlashRequest::ModifyControl(programming)];
    for (i, word) in (0u32..).zip(words) {
        expected.push(FlashRequest::WriteWord { address: BASE + 128 + 4 * i, word });
    }
    // Twice with the queue still filled, once with it empty, and the status.
    expected.extend([FlashRequest::ReadStatus; 4]);
    assert_eq!(flash.log, expected);
    assert_eq!(write_word(&bank, 5, words), Err(UpdateError::BadLength));
}

#[test]
fn flash_words_are_counted_whole() {
    let bank = Bank { base: BASE, end: BASE + 5 * 32 + 31 };
    assert_eq!(bank.words(), 5);
    assert_eq!(bank.locate(4), Ok(BASE + 128));
    assert_eq!(bank.locate(5), Err(UpdateError::BadLength));
    assert_eq!(Bank { base: 8, end: 8 }.words(), 0);
}

#[test]
fn the_server_says_what_it_is_built_for() {
    let server = server(UpdateState::NoUpdate);
    assert_eq!(server.block_size(), 64);
    assert_eq!(server.current_version(), ImageVersion { epoch: 3, version: 7 });
    assert_eq!(server.current_notification_mask(), 0);
    assert_eq!(SlotId::Active.other(), SlotId::Inactive);
    assert_eq!(SlotId::Inactive.other(), SlotId::Active);
}

#[test]
fn an_update_runs_from_start_to_end() {
    let mut flash = Flash::new();
    let mut server = ServerImpl::new(CONFIG, false, false);
    server = flash.finish(server.prep_image_update()).server;
    for block in 0..2 {
        let done = flash.finish(server.write_one_block(block, Some(&[block as u8 + 1; 64])));
        assert_eq!(done.result, Ok(()));
        server = done.server;
    }
    assert_eq!(server.finish_image_update(), Ok(()));
    server = flash.finish(server.set_pending_boot_slot(SlotId::Inactive)).server;
    assert_eq!(server.get_pending_boot_slot(), SlotId::Inactive);
    assert_eq!(server.state, UpdateState::Finished);
    assert_eq!(flash.memory[..64], [1; 64]);
    assert_eq!(flash.memory[64..128], [2; 64]);
}
