//! What each call of the update server does, told request by request and reply
//! by reply.
use crate::api::RequestError;
use crate::procedure::{answered, requests, run, Procedure, Progress};
use crate::update_server::bank::Bank;
use crate::update_server::block::{law_words_are_made_up_of_the_bytes, WriteBlock};
use crate::update_server::contents::{
    law_failures_have_a_cause, law_stores_follow_the_page, page_stores_from, stores, Store,
};
use crate::update_server::erase::{
    law_erase_waits_for_the_end, law_rounds_of_waiting, law_waiting_ends_with_the_erase,
    wait_script, BankErase,
};
use crate::update_server::laws::{lemma_erasing, lemma_swap, lemma_write};
use crate::update_server::program::{law_word_is_stored_whole, WriteStage, WriteWord};
use crate::update_server::registers::{ControlChange, FlashReply, FlashRequest};
use crate::update_server::server::{
    pending_slot, progress_check, Call, Completed, Config, ServerImpl, Stage,
};
use crate::update_server::status::reported;
use crate::update_server::swap::{law_waiting_ends_with_the_change, lemma_busy_polls, SwapBanks};
use crate::update_server::types::{SlotId, UpdateError, UpdateState};
use crate::update_server::unlock::Unlock;
use vstd::endian::endianness;
use vstd::prelude::*;

verus! {

/// To unlock a bank that is not locked is to look, and nothing else. To unlock
/// one that is takes the two keys of the bank and those of the option bytes.
pub proof fn law_unlocking_takes_four_keys(replies: Seq<FlashReply>, at: int)
    requires
        0 <= at < replies.len(),
    ensures
        replies[at] == FlashReply::Locked(false) ==> {
            &&& run(Unlock::CheckLock, replies, at) is Finished
            &&& requests(Unlock::CheckLock, replies, at) == seq![FlashRequest::ReadLock]
        },
        replies[at] == FlashReply::Locked(true) && replies.len() >= at + 5 ==> {
            &&& run(Unlock::CheckLock, replies, at) is Finished
            &&& requests(Unlock::CheckLock, replies, at) == seq![
                FlashRequest::ReadLock,
                FlashRequest::WriteKey(0x4567_0123),
                FlashRequest::WriteKey(0xCDEF_89AB),
                FlashRequest::WriteOptionKey(0x0819_2A3B),
                FlashRequest::WriteOptionKey(0x4C5D_6E7F),
            ]
        },
{
    reveal_with_fuel(run, 6);
    reveal_with_fuel(requests, 6);
}

/// The replies that the unlocking takes.
spec fn unlocking(replies: Seq<FlashReply>) -> int {
    if replies[0] == FlashReply::Locked(true) {
        5
    } else {
        1
    }
}

proof fn lemma_swap_up_to_the_waiting(replies: Seq<FlashReply>)
    requires
        run(SwapBanks::Unlocking(Unlock::CheckLock), replies, 0) is Finished,
        answered(SwapBanks::Unlocking(Unlock::CheckLock), replies, 0),
    ensures
        ({
            let n = unlocking(replies);
            let programmed = FlashRequest::ProgramSwapBank(!replies[n]->Options_0.swap_bank_opt);
            &&& replies[n] is Options
            &&& n + 3 < replies.len()
            &&& run(SwapBanks::Busy, replies, n + 3) is Finished
            &&& answered(SwapBanks::Busy, replies, n + 3)
            &&& requests(SwapBanks::Unlocking(Unlock::CheckLock), replies, 0) == (if n == 5 {
                seq![
                    FlashRequest::ReadLock,
                    FlashRequest::WriteKey(0x4567_0123),
                    FlashRequest::WriteKey(0xCDEF_89AB),
                    FlashRequest::WriteOptionKey(0x0819_2A3B),
                    FlashRequest::WriteOptionKey(0x4C5D_6E7F),
                ]
            } else {
                seq![FlashRequest::ReadLock]
            }) + seq![
                FlashRequest::ReadOptionStatus,
                programmed,
                FlashRequest::StartOptionChange,
            ] + requests(SwapBanks::Busy, replies, n + 3)
        }),
{
    reveal_with_fuel(run, 9);
    reveal_with_fuel(requests, 9);
    reveal_with_fuel(answered, 9);
}

/// To set a slot other than the pending one swaps the banks, whatever the state
/// of the update: what is locked is unlocked, which takes `n` replies, the bank
/// swap option is read and programmed to its opposite, the change is started, and
/// it is looked at until it is over. The slot is pending then, and nothing else
/// is any different.
pub proof fn law_other_slot_swaps_the_banks(
    server: ServerImpl,
    slot: SlotId,
    replies: Seq<FlashReply>,
    n: int,
) -> (polls: nat)
    requires
        slot != server.pending,
        n == if replies[0] == FlashReply::Locked(true) {
            5
        } else {
            1int
        },
        server.setting(slot) matches Progress::Continue(call) ==> answered(call, replies, 0) && run(
            call,
            replies,
            0,
        ) is Finished,
    ensures
        server.setting(slot) matches Progress::Continue(call) && {
            let asked = requests(call, replies, 0);
            &&& polls > 0
            &&& asked.len() == n + 3 + polls <= replies.len()
            &&& asked[0] == FlashRequest::ReadLock
            &&& n == 5 ==> {
                &&& asked[1] == FlashRequest::WriteKey(0x4567_0123)
                &&& asked[2] == FlashRequest::WriteKey(0xCDEF_89AB)
                &&& asked[3] == FlashRequest::WriteOptionKey(0x0819_2A3B)
                &&& asked[4] == FlashRequest::WriteOptionKey(0x4C5D_6E7F)
            }
            &&& asked[n] == FlashRequest::ReadOptionStatus
            &&& replies[n] matches FlashReply::Options(options) && asked[n + 1]
                == FlashRequest::ProgramSwapBank(!options.swap_bank_opt)
            &&& asked[n + 2] == FlashRequest::StartOptionChange
            &&& forall|i: int|
                n + 3 <= i < asked.len() ==> #[trigger] asked[i] == FlashRequest::ReadOptionStatus
            &&& forall|i: int|
                n + 3 <= i < asked.len() ==> ((#[trigger] replies[i]) matches FlashReply::Options(
                    options,
                ) && (options.opt_busy <==> i < asked.len() - 1))
            &&& run(call, replies, 0) == Progress::<Call, Completed>::Finished(
                Completed {
                    server: ServerImpl {
                        config: server.config,
                        state: server.state,
                        pending: slot,
                    },
                    result: Ok(()),
                },
            )
        },
{
    let call = server.setting(slot)->Continue_0;
    lemma_swap(call, SwapBanks::Unlocking(Unlock::CheckLock), replies, 0);
    lemma_swap_up_to_the_waiting(replies);
    lemma_busy_polls(replies, n + 3)
}

/// A swap of the banks is over as soon as a look finds that the change is.
pub proof fn law_swap_ends_with_the_change(
    server: ServerImpl,
    slot: SlotId,
    replies: Seq<FlashReply>,
    i: int,
)
    requires
        slot != server.pending,
        (if replies[0] == FlashReply::Locked(true) {
            8
        } else {
            4int
        }) <= i < replies.len(),
        replies[i] matches FlashReply::Options(options) && !options.opt_busy,
    ensures
        server.setting(slot) matches Progress::Continue(call) && run(call, replies, 0) is Finished,
{
    reveal_with_fuel(run, 9);
    let call = server.setting(slot)->Continue_0;
    lemma_swap(call, SwapBanks::Unlocking(Unlock::CheckLock), replies, 0);
    let n: int = if replies[0] == FlashReply::Locked(true) {
        5
    } else {
        1
    };
    law_waiting_ends_with_the_change(replies, n + 3, i);
}

/// To set the slot that is pending asks nothing of the flash and changes
/// nothing.
pub proof fn law_pending_slot_is_left_alone(server: ServerImpl)
    ensures
        server.setting(server.pending) == Progress::<Call, Completed>::Finished(
            Completed { server, result: Ok(()) },
        ),
{
}

proof fn lemma_start_up_to_the_erase(server: ServerImpl, replies: Seq<FlashReply>)
    requires
        ({
            let call = Call { server, stage: Stage::Unlock(Unlock::CheckLock) };
            run(call, replies, 0) is Finished && answered(call, replies, 0)
        }),
    ensures
        ({
            let call = Call { server, stage: Stage::Unlock(Unlock::CheckLock) };
            let erasing = Call { server, stage: Stage::Erase(BankErase::EnableInterrupt) };
            let n = unlocking(replies);
            &&& n < replies.len()
            &&& run(call, replies, 0) == run(erasing, replies, n)
            &&& answered(erasing, replies, n)
            &&& requests(call, replies, 0) == (if n == 5 {
                seq![
                    FlashRequest::ReadLock,
                    FlashRequest::WriteKey(0x4567_0123),
                    FlashRequest::WriteKey(0xCDEF_89AB),
                    FlashRequest::WriteOptionKey(0x0819_2A3B),
                    FlashRequest::WriteOptionKey(0x4C5D_6E7F),
                ]
            } else {
                seq![FlashRequest::ReadLock]
            }) + requests(erasing, replies, n)
        }),
{
    reveal_with_fuel(run, 6);
    reveal_with_fuel(requests, 6);
    reveal_with_fuel(answered, 6);
}

/// To start an update, where there is none, unlocks the bank if it is locked,
/// which takes `n` replies, enables the interrupt and its sources, starts the
/// erase, and waits, one notification after the other, until a status says that
/// it has come to its end. The status read thereafter decides.
pub proof fn law_update_starts_with_an_erase(
    server: ServerImpl,
    replies: Seq<FlashReply>,
    n: int,
) -> (early: nat)
    requires
        server.state is NoUpdate,
        n == if replies[0] == FlashReply::Locked(true) {
            5
        } else {
            1int
        },
        server.preparing() matches Progress::Continue(call) ==> answered(call, replies, 0) && run(
            call,
            replies,
            0,
        ) is Finished,
    ensures
        server.preparing() matches Progress::Continue(call) && {
            let asked = requests(call, replies, 0);
            let done = run(call, replies, 0)->Finished_0;
            &&& asked.len() == n + 3 * early + 6 <= replies.len()
            &&& asked[0] == FlashRequest::ReadLock
            &&& n == 5 ==> {
                &&& asked[1] == FlashRequest::WriteKey(0x4567_0123)
                &&& asked[2] == FlashRequest::WriteKey(0xCDEF_89AB)
                &&& asked[3] == FlashRequest::WriteOptionKey(0x0819_2A3B)
                &&& asked[4] == FlashRequest::WriteOptionKey(0x4C5D_6E7F)
            }
            &&& asked[n] == FlashRequest::EnableInterrupt
            &&& asked[n + 1] == FlashRequest::ModifyControl(
                ControlChange {
                    psize: None,
                    pg: None,
                    start: None,
                    ber: None,
                    eopie: Some(true),
                    wrperrie: Some(true),
                    pgserrie: Some(true),
                    strberrie: Some(true),
                    incerrie: Some(true),
                    operrie: Some(true),
                },
            )
            &&& asked[n + 2] == FlashRequest::ModifyControl(
                ControlChange {
                    psize: None,
                    pg: None,
                    start: Some(true),
                    ber: Some(true),
                    eopie: None,
                    wrperrie: None,
                    pgserrie: None,
                    strberrie: None,
                    incerrie: None,
                    operrie: None,
                },
            )
            &&& forall|k: int|
                0 <= k <= early ==> {
                    &&& (#[trigger] asked[n + 3 + 3 * k]) is AwaitInterrupt
                    &&& asked[n + 4 + 3 * k] is ReadStatus
                    &&& replies[n + 4 + 3 * k] matches FlashReply::Status(status) && (status.eop
                        <==> k == early)
                    &&& if k < early {
                        asked[n + 5 + 3 * k] is EnableInterrupt
                    } else {
                        asked[n + 5 + 3 * k] is ReadStatus
                    }
                }
            &&& replies[n + 5 + 3 * early] matches FlashReply::Status(status) && match reported(
                status,
            ) {
                Ok(_) => done == (Completed {
                    server: ServerImpl {
                        config: server.config,
                        state: UpdateState::InProgress,
                        pending: server.pending,
                    },
                    result: Ok(()),
                }),
                Err(error) => done == (Completed {
                    server,
                    result: Err(RequestError::Runtime(error)),
                }),
            }
        },
{
    let call = server.preparing()->Continue_0;
    let erasing = Call { server, stage: Stage::Erase(BankErase::EnableInterrupt) };
    lemma_start_up_to_the_erase(server, replies);
    lemma_erasing(erasing, BankErase::EnableInterrupt, replies, n);
    let early = law_erase_waits_for_the_end(replies, n);
    law_rounds_of_waiting(early);
    let asked = requests(call, replies, 0);
    let rest = requests(erasing, replies, n);
    let waits = wait_script(early);
    assert(asked.len() == n + rest.len());
    assert forall|x: int| n + 3 <= x < asked.len() implies #[trigger] asked[x] == waits[x - n
        - 3] by {
        assert(asked[x] == rest[x - n]);
    }
    assert forall|k: int| 0 <= k <= early implies {
        &&& (#[trigger] asked[n + 3 + 3 * k]) is AwaitInterrupt
        &&& asked[n + 4 + 3 * k] is ReadStatus
        &&& replies[n + 4 + 3 * k] matches FlashReply::Status(status) && (status.eop <==> k
            == early)
        &&& if k < early {
            asked[n + 5 + 3 * k] is EnableInterrupt
        } else {
            asked[n + 5 + 3 * k] is ReadStatus
        }
    } by {
        assert(asked[n + 3 + 3 * k] == waits[3 * k]);
        assert(asked[n + 4 + 3 * k] == waits[3 * k + 1]);
        assert(asked[n + 5 + 3 * k] == waits[3 * k + 2]);
        assert(replies[n + 3 * k + 4] == replies[n + 4 + 3 * k]);
    }
    early
}

/// The start of an update is over as soon as a status says that the erase has
/// come to its end, and the status has been read again.
pub proof fn law_start_ends_with_the_erase(
    server: ServerImpl,
    replies: Seq<FlashReply>,
    n: int,
    k: int,
)
    requires
        server.state is NoUpdate,
        n == if replies[0] == FlashReply::Locked(true) {
            5
        } else {
            1int
        },
        0 <= k,
        n + 3 * k + 6 <= replies.len(),
        replies[n + 4 + 3 * k] matches FlashReply::Status(status) && status.eop,
    ensures
        server.preparing() matches Progress::Continue(call) && run(call, replies, 0) is Finished,
{
    reveal_with_fuel(run, 6);
    let erasing = Call { server, stage: Stage::Erase(BankErase::EnableInterrupt) };
    lemma_erasing(erasing, BankErase::EnableInterrupt, replies, n);
    assert(replies[n + 3 + 3 * k + 1] == replies[n + 4 + 3 * k]);
    law_waiting_ends_with_the_erase(replies, n + 3, k);
}

/// What a call says that asks nothing of the flash, by the state of the update:
/// to start one is refused where there is one already, and all that needs one in
/// progress is refused where there is none. Nothing changes then.
pub proof fn law_calls_are_refused_by_state(
    server: ServerImpl,
    result: Result<(), RequestError<UpdateError>>,
)
    ensures
        server.state is InProgress ==> server.preparing() == Progress::<Call, Completed>::Finished(
            Completed {
                server,
                result: Err(RequestError::Runtime(UpdateError::UpdateInProgress)),
            },
        ),
        server.state is Finished ==> server.preparing() == Progress::<Call, Completed>::Finished(
            Completed {
                server,
                result: Err(RequestError::Runtime(UpdateError::UpdateAlreadyFinished)),
            },
        ),
        progress_check(server.state) is Ok <==> server.state is InProgress,
        server.state is NoUpdate ==> progress_check(server.state) == Err::<
            (),
            RequestError<UpdateError>,
        >(RequestError::Runtime(UpdateError::UpdateNotStarted)),
        server.state is Finished ==> progress_check(server.state) == Err::<
            (),
            RequestError<UpdateError>,
        >(RequestError::Runtime(UpdateError::UpdateAlreadyFinished)),
        server.answer(result) == Progress::<Call, Completed>::Finished(
            Completed { server, result },
        ),
{
}

/// To abort or to finish an update changes how far it has come, if it is in
/// progress, and nothing else: neither the pending slot nor what the server is
/// built for.
pub proof fn law_end_of_an_update_changes_its_state_alone(server: ServerImpl, state: UpdateState)
    ensures
        server.moved_to(state).pending == server.pending,
        server.moved_to(state).config == server.config,
        server.state is InProgress ==> server.moved_to(state).state == state,
        !(server.state is InProgress) ==> server.moved_to(state) == server,
{
}

/// The system boots the running image next if and only if the bank swap option
/// says what the banks are swapped as already; of the two slots one is the other
/// of the other.
pub proof fn law_equal_options_keep_the_running_image(
    swap_bank_opt: bool,
    swap_bank: bool,
    slot: SlotId,
)
    ensures
        pending_slot(swap_bank_opt, swap_bank) is Active <==> swap_bank_opt == swap_bank,
        slot.spec_other() != slot,
{
}

/// A flash word is programmed by one change of the control register, eight
/// stores at consecutive addresses, looks at the status until the write queue is
/// empty, and one more look, which decides.
pub proof fn law_flash_word_takes_eight_stores(
    start: u32,
    words: [u32; 8],
    replies: Seq<FlashReply>,
)
    requires
        start + 32 <= u32::MAX,
        answered(WriteWord::at(start, words), replies, 0),
        run(WriteWord::at(start, words), replies, 0) is Finished,
    ensures
        ({
            let asked = requests(WriteWord::at(start, words), replies, 0);
            let last = asked.len() - 1;
            &&& 11 <= asked.len() <= replies.len()
            &&& asked[0] == FlashRequest::ModifyControl(
                ControlChange {
                    psize: Some(3),
                    pg: Some(true),
                    start: None,
                    ber: None,
                    eopie: Some(false),
                    wrperrie: Some(false),
                    pgserrie: Some(false),
                    strberrie: Some(false),
                    incerrie: Some(false),
                    operrie: Some(false),
                },
            )
            &&& forall|j: int|
                0 <= j < 8 ==> #[trigger] asked[1 + j] == (FlashRequest::WriteWord {
                    address: (start + 4 * j) as u32,
                    word: words@[j],
                })
            &&& forall|i: int| 9 <= i <= last ==> (#[trigger] asked[i]) is ReadStatus
            &&& forall|i: int|
                9 <= i < last ==> ((#[trigger] replies[i]) matches FlashReply::Status(status) && (
                status.qw <==> i < last - 1))
            &&& replies[last] matches FlashReply::Status(status) && run(
                WriteWord::at(start, words),
                replies,
                0,
            ) == Progress::<WriteWord, Result<(), UpdateError>>::Finished(reported(status))
        }),
{
    law_word_is_stored_whole(start, words, replies);
}

proof fn lemma_polling_ends(write: WriteWord, replies: Seq<FlashReply>, at: int, i: int)
    requires
        0 <= at <= i,
        i + 1 < replies.len(),
        write.stage is Poll,
        replies[i] matches FlashReply::Status(status) && !status.qw,
    ensures
        run(write, replies, at) is Finished,
    decreases i - at,
{
    reveal_with_fuel(run, 3);
    if at < i && replies[at]->Status_0.qw {
        lemma_polling_ends(write, replies, at + 1, i);
    }
}

/// The programming of a flash word is over as soon as a look finds the write
/// queue empty, and the status has been read once more.
pub proof fn law_programming_ends_with_the_queue(
    start: u32,
    words: [u32; 8],
    replies: Seq<FlashReply>,
    i: int,
)
    requires
        9 <= i,
        i + 1 < replies.len(),
        replies[i] matches FlashReply::Status(status) && !status.qw,
    ensures
        run(WriteWord::at(start, words), replies, 0) is Finished,
{
    reveal_with_fuel(run, 10);
    lemma_polling_ends(WriteWord { start, words, stage: WriteStage::Poll }, replies, 9, i);
}

/// The programming of a block does what the programming of one flash word does,
/// and then the same of the next, if there is one and it lies in the bank. It
/// ends with the first error.
pub proof fn law_block_is_programmed_word_by_word(
    write: WriteBlock,
    replies: Seq<FlashReply>,
    at: int,
)
    requires
        0 <= at,
        write.wf(),
    ensures
        ({
            let asked = requests(write, replies, at);
            let of_word = requests(write.word, replies, at);
            let ended = run(write, replies, at);
            let index = write.index + 1;
            let start = write.bank.base + 32 * (write.first + index);
            let next = WriteBlock {
                bank: write.bank,
                first: write.first,
                page: write.page,
                index: index as usize,
                word: WriteWord {
                    start: start as u32,
                    words: write.page@[index],
                    stage: WriteStage::Configure,
                },
            };
            match run(write.word, replies, at) {
                Progress::Continue(_) => asked == of_word && ended is Continue,
                Progress::Finished(Err(error)) => asked == of_word && ended == Progress::<
                    WriteBlock,
                    Result<(), UpdateError>,
                >::Finished(Err(error)),
                Progress::Finished(Ok(_)) => if index >= write.page@.len() {
                    asked == of_word && ended == Progress::<
                        WriteBlock,
                        Result<(), UpdateError>,
                    >::Finished(Ok(()))
                } else if start + 32 > write.bank.end {
                    asked == of_word && ended == Progress::<
                        WriteBlock,
                        Result<(), UpdateError>,
                    >::Finished(Err(UpdateError::BadLength))
                } else {
                    &&& asked == of_word + requests(next, replies, at + of_word.len())
                    &&& ended == run(next, replies, at + of_word.len())
                },
            }
        }),
    decreases replies.len() - at,
{
    if at < replies.len() {
        if let Progress::Continue(word) = write.word.after(replies[at]) {
            let inner = WriteBlock { word, ..write };
            assert(write.after(replies[at]) == Progress::<
                WriteBlock,
                Result<(), UpdateError>,
            >::Continue(inner));
            law_block_is_programmed_word_by_word(inner, replies, at + 1);
            assert(requests(write.word, replies, at) == seq![write.word.asks()] + requests(
                word,
                replies,
                at + 1,
            ));
            assert(requests(write, replies, at) == seq![write.asks()] + requests(
                inner,
                replies,
                at + 1,
            ));
        } else {
            assert(requests(write.word, replies, at) =~= seq![write.word.asks()]);
        }
    }
}

/// A call that programs a block asks what the programming of the block asks, and
/// says what comes of it. The server is left as it is.
pub proof fn law_call_follows_the_block(
    server: ServerImpl,
    write: WriteBlock,
    replies: Seq<FlashReply>,
)
    ensures
        ({
            let call = Call { server, stage: Stage::Write(write) };
            &&& requests(call, replies, 0) == requests(write, replies, 0)
            &&& match run(write, replies, 0) {
                Progress::Continue(_) => run(call, replies, 0) is Continue,
                Progress::Finished(Ok(_)) => run(call, replies, 0) == Progress::<
                    Call,
                    Completed,
                >::Finished(Completed { server, result: Ok(()) }),
                Progress::Finished(Err(error)) => run(call, replies, 0) == Progress::<
                    Call,
                    Completed,
                >::Finished(Completed { server, result: Err(RequestError::Runtime(error)) }),
            }
        }),
{
    lemma_write(Call { server, stage: Stage::Write(write) }, write, replies, 0);
}

/// To write a block begins with its first flash word, if there is one: at the
/// address that the number of the block gives it, if it lies in the bank, and
/// not at all if it does not.
pub proof fn law_block_begins_with_its_first_word(
    server: ServerImpl,
    block_num: usize,
    block: Seq<u8>,
    progress: Progress<Call, Completed>,
)
    requires
        server.wf(),
        server.state is InProgress,
        server.takes_block(block_num as int, block.len() as int),
        server.sets_out(block_num, block, progress),
        server.config.words_per_block > 0,
    ensures
        ({
            let bank = server.config.bank;
            let words = server.config.words_per_block;
            let start = bank.base + 32 * (block_num * words);
            if start + 32 <= bank.end {
                &&& progress matches Progress::Continue(call)
                &&& call.wf()
                &&& call.server == server
                &&& call.stage matches Stage::Write(write)
                &&& write.wf()
                &&& write.bank == bank
                &&& write.first == block_num * words
                &&& write.page@.len() == words
                &&& write.index == 0
                &&& write.word == (WriteWord {
                    start: start as u32,
                    words: write.page@[0],
                    stage: WriteStage::Configure,
                })
            } else {
                progress == Progress::<Call, Completed>::Finished(
                    Completed {
                        server,
                        result: Err(RequestError::Runtime(UpdateError::BadLength)),
                    },
                )
            }
        }),
{
}

proof fn lemma_stores_are_writes(asked: Seq<FlashRequest>, writes: spec_fn(FlashRequest) -> bool)
    requires
        forall|r: FlashRequest| #[trigger] writes(r) <==> r is WriteWord,
    ensures
        asked.filter(writes).len() == stores(asked).len(),
        forall|i: int|
            0 <= i < stores(asked).len() ==> #[trigger] asked.filter(writes)[i]
                == (FlashRequest::WriteWord {
                address: stores(asked)[i].address,
                word: stores(asked)[i].word,
            }),
    decreases asked.len(),
{
    reveal(Seq::filter);
    if asked.len() > 0 {
        let one = seq![asked[0]];
        let rest = asked.skip(1);
        assert(asked == one + rest);
        Seq::filter_distributes_over_add(one, rest, writes);
        lemma_stores_are_writes(rest, writes);
        assert(one.drop_last() == Seq::<FlashRequest>::empty());
        assert(one.drop_last().filter(writes) == Seq::<FlashRequest>::empty());
        assert(one.filter(writes) == if writes(asked[0]) {
            one
        } else {
            Seq::<FlashRequest>::empty()
        });
        let first = stores(asked).len() - stores(rest).len();
        assert forall|i: int| 0 <= i < stores(asked).len() implies #[trigger] asked.filter(
            writes,
        )[i] == (FlashRequest::WriteWord {
            address: stores(asked)[i].address,
            word: stores(asked)[i].word,
        }) by {
            if i >= first {
                assert(asked.filter(writes)[i] == rest.filter(writes)[i - first]);
                assert(stores(asked)[i] == stores(rest)[i - first]);
            }
        }
    }
}

/// To write a block whose first flash word lies in the bank takes work: the call
/// does not end at once. The `i`-th word that is stored is the `i`-th of the
/// block, with zeros behind its end, at the address that it has by the number of
/// the block. All of them are stored if the call succeeds. If it says that the
/// block is too long, it is, and all that lies in the bank is stored; and any
/// other error is what the last status reports, after whole flash words.
pub proof fn law_block_is_stored_in_its_place(
    server: ServerImpl,
    block_num: usize,
    block: Seq<u8>,
    progress: Progress<Call, Completed>,
    replies: Seq<FlashReply>,
)
    requires
        server.wf(),
        server.state is InProgress,
        server.takes_block(block_num as int, block.len() as int),
        server.sets_out(block_num, block, progress),
        server.config.words_per_block > 0,
        server.config.bank.base + 32 * (block_num * server.config.words_per_block) + 32
            <= server.config.bank.end,
        progress matches Progress::Continue(call) ==> answered(call, replies, 0),
    ensures
        progress matches Progress::Continue(call) && {
            let bank = server.config.bank;
            let words = server.config.words_per_block;
            let asked = requests(call, replies, 0);
            let made = asked.filter(|r: FlashRequest| r is WriteWord);
            let inside = (bank.end - bank.base) / 32 - block_num * words;
            let byte = |k: int|
                if k < block.len() {
                    block[k]
                } else {
                    0u8
                };
            &&& made.len() <= 8 * words
            &&& forall|i: int|
                0 <= i < made.len() ==> {
                    &&& (#[trigger] made[i]) is WriteWord
                    &&& made[i]->address == bank.base + 32 * (block_num * words) + 4 * i
                    &&& made[i]->WriteWord_word == if endianness() is Little {
                        byte(4 * i) + 0x100 * byte(4 * i + 1) + 0x1_0000 * byte(4 * i + 2)
                            + 0x100_0000 * byte(4 * i + 3)
                    } else {
                        byte(4 * i + 3) + 0x100 * byte(4 * i + 2) + 0x1_0000 * byte(4 * i + 1)
                            + 0x100_0000 * byte(4 * i)
                    }
                }
            &&& run(call, replies, 0) matches Progress::Finished(done) ==> {
                &&& done.server == server
                &&& match done.result {
                    Ok(_) => made.len() == 8 * words && words <= inside,
                    Err(RequestError::Runtime(UpdateError::BadLength)) => words > inside
                        && made.len() == 8 * inside,
                    Err(RequestError::Runtime(error)) => {
                        &&& made.len() % 8 == 0
                        &&& 0 < made.len()
                        &&& 0 < asked.len() <= replies.len()
                        &&& replies[asked.len() - 1] matches FlashReply::Status(status)
                            && reported(status) == Err::<(), UpdateError>(error)
                    },
                    Err(RequestError::Fail(_)) => false,
                }
            }
        },
{
    law_block_begins_with_its_first_word(server, block_num, block, progress);
    let call = progress->Continue_0;
    let write = call.stage->Write_0;
    let bank = server.config.bank;
    let words = server.config.words_per_block;
    lemma_write(call, write, replies, 0);
    law_stores_follow_the_page(write, replies);
    law_words_are_made_up_of_the_bytes(block, words as int, write.page@);
    let asked = requests(call, replies, 0);
    let writes = |r: FlashRequest| r is WriteWord;
    lemma_stores_are_writes(asked, writes);
    let made = asked.filter(writes);
    let all = page_stores_from(bank, write.first as int, write.page@, 0);
    let byte = |k: int|
        if k < block.len() {
            block[k]
        } else {
            0u8
        };
    assert forall|i: int| 0 <= i < made.len() implies {
        &&& (#[trigger] made[i]) is WriteWord
        &&& made[i]->address == bank.base + 32 * (block_num * words) + 4 * i
        &&& made[i]->WriteWord_word == if endianness() is Little {
            byte(4 * i) + 0x100 * byte(4 * i + 1) + 0x1_0000 * byte(4 * i + 2) + 0x100_0000 * byte(
                4 * i + 3,
            )
        } else {
            byte(4 * i + 3) + 0x100 * byte(4 * i + 2) + 0x1_0000 * byte(4 * i + 1) + 0x100_0000
                * byte(4 * i)
        }
    } by {
        assert(stores(asked)[i] == all[i]);
        let word = write.page@[i / 8]@[i % 8];
        assert(all[i] == (Store {
            address: (bank.base + 32 * (block_num * words) + 4 * i) as u32,
            word,
        }));
        assert(32 * (i / 8) + 4 * (i % 8) == 4 * i);
    }
    if run(write, replies, 0) is Finished && run(write, replies, 0)->Finished_0 is Err {
        law_failures_have_a_cause(write, replies);
    }
}

/// What a call on the flash accepts as a reply, in whatever it is doing: the
/// value that was read where something is, and else that it has been done.
pub proof fn law_replies_of_the_right_kind_are_accepted(
    call: Call,
    swap: SwapBanks,
    unlock: Unlock,
    erase: BankErase,
    block: WriteBlock,
    word: WriteWord,
    reply: FlashReply,
)
    ensures
        call.accepts(reply) <==> match call.asks() {
            FlashRequest::ReadLock => reply is Locked,
            FlashRequest::ReadOptionStatus => reply is Options,
            FlashRequest::ReadStatus => reply is Status,
            _ => reply is Done,
        },
        swap.accepts(reply) <==> match swap.asks() {
            FlashRequest::ReadLock => reply is Locked,
            FlashRequest::ReadOptionStatus => reply is Options,
            FlashRequest::ReadStatus => reply is Status,
            _ => reply is Done,
        },
        unlock.accepts(reply) <==> match unlock.asks() {
            FlashRequest::ReadLock => reply is Locked,
            FlashRequest::ReadOptionStatus => reply is Options,
            FlashRequest::ReadStatus => reply is Status,
            _ => reply is Done,
        },
        erase.accepts(reply) <==> match erase.asks() {
            FlashRequest::ReadLock => reply is Locked,
            FlashRequest::ReadOptionStatus => reply is Options,
            FlashRequest::ReadStatus => reply is Status,
            _ => reply is Done,
        },
        block.accepts(reply) <==> match block.asks() {
            FlashRequest::ReadLock => reply is Locked,
            FlashRequest::ReadOptionStatus => reply is Options,
            FlashRequest::ReadStatus => reply is Status,
            _ => reply is Done,
        },
        word.accepts(reply) <==> match word.asks() {
            FlashRequest::ReadLock => reply is Locked,
            FlashRequest::ReadOptionStatus => reply is Options,
            FlashRequest::ReadStatus => reply is Status,
            _ => reply is Done,
        },
{
}

/// Every block that is no longer than a block may be is taken if it begins in the
/// bank or just behind its last whole flash word, and does not run out of the
/// address space. A server is one in any bank that does not end before it
/// begins, with blocks whose length is a number.
pub proof fn law_blocks_that_begin_in_the_bank_are_taken(
    server: ServerImpl,
    config: Config,
    block_num: int,
    len: int,
)
    requires
        server.config.bank.base <= server.config.bank.end <= u32::MAX - 32,
    ensures
        0 <= block_num && len <= 32 * server.config.words_per_block && server.config.bank.base + 32
            * (block_num * server.config.words_per_block) <= server.config.bank.end
            ==> server.takes_block(block_num, len),
        config.bank.base <= config.bank.end && 32 * config.words_per_block <= usize::MAX
            ==> config.wf(),
        server.wf() <==> server.config.wf(),
        config.block_bytes() == 32 * config.words_per_block,
{
    assert(0 <= block_num ==> 0 <= block_num * server.config.words_per_block) by (nonlinear_arith);
}

/// A flash word begins 32 bytes behind the one before it, and is found if and
/// only if all of it lies in the bank.
pub proof fn law_flash_words_are_32_bytes_apart(bank: Bank, word_number: int)
    requires
        bank.base <= bank.end,
        0 <= word_number,
    ensures
        bank.spec_locate(word_number) == if bank.base + 32 * word_number + 32 <= bank.end {
            Ok::<u32, UpdateError>((bank.base + 32 * word_number) as u32)
        } else {
            Err::<u32, UpdateError>(UpdateError::BadLength)
        },
        32 * bank.word_limit() <= bank.end - bank.base < 32 * bank.word_limit() + 32,
        bank.base + 32 * word_number <= bank.end <= u32::MAX - 32 ==> bank.reaches(word_number),
{
}

} // verus!
