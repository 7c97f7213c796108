//! What holds of the update server over the whole of a call, and from one call
//! to the next.
use crate::api::RequestError;
use crate::procedure::{answered, requests, run, Procedure, Progress};
use crate::update_server::bank::FLASH_WORD_BYTES;
use crate::update_server::block::{
    law_padding_leaves_the_page_alone, native_order, page_stores, zero_extended, WriteBlock,
};
use crate::update_server::contents::{
    all_stored, law_failures_have_a_cause, law_programmed_block_is_in_the_bank,
    law_stores_follow_the_page, overwritten, stores,
};
use crate::update_server::erase::{
    erase_script, erase_started, law_erase_waits_for_the_end, BankErase,
};
use crate::update_server::registers::{FlashReply, FlashRequest};
use crate::update_server::server::{
    pending_slot, progress_check, Call, Completed, ServerImpl, Stage,
};
use crate::update_server::status::reported;
use crate::update_server::swap::{law_swap_programs_the_opposite, swap_script, SwapBanks};
use crate::update_server::types::{SlotId, UpdateError, UpdateState};
use crate::update_server::unlock::unlock_script;
use vstd::prelude::*;

verus! {

pub proof fn lemma_swap(call: Call, swap: SwapBanks, replies: Seq<FlashReply>, at: int)
    requires
        call.stage == Stage::Swap(swap),
        0 <= at,
    ensures
        requests(call, replies, at) == requests(swap, replies, at),
        answered(call, replies, at) == answered(swap, replies, at),
        run(call, replies, at) is Finished <==> run(swap, replies, at) is Finished,
        run(call, replies, at) matches Progress::Finished(done) ==> {
            &&& done.result == Ok::<(), RequestError<UpdateError>>(())
            &&& done.server == (ServerImpl {
                pending: call.server.pending.spec_other(),
                ..call.server
            })
        },
    decreases replies.len() - at,
{
    if at < replies.len() {
        if let Progress::Continue(next) = swap.after(replies[at]) {
            lemma_swap(
                Call { server: call.server, stage: Stage::Swap(next) },
                next,
                replies,
                at + 1,
            );
        }
    }
}

pub proof fn lemma_write(call: Call, write: WriteBlock, replies: Seq<FlashReply>, at: int)
    requires
        call.stage == Stage::Write(write),
        0 <= at,
    ensures
        requests(call, replies, at) == requests(write, replies, at),
        answered(call, replies, at) == answered(write, replies, at),
        match run(write, replies, at) {
            Progress::Continue(_) => run(call, replies, at) is Continue,
            Progress::Finished(Ok(_)) => run(call, replies, at) == call.server.answer(Ok(())),
            Progress::Finished(Err(error)) => run(call, replies, at) == call.server.answer(
                Err(RequestError::Runtime(error)),
            ),
        },
    decreases replies.len() - at,
{
    if at < replies.len() {
        if let Progress::Continue(next) = write.after(replies[at]) {
            lemma_write(
                Call { server: call.server, stage: Stage::Write(next) },
                next,
                replies,
                at + 1,
            );
        }
    }
}

proof fn lemma_erase(call: Call, replies: Seq<FlashReply>, at: int)
    requires
        call.stage is Unlock || call.stage is Erase,
        0 <= at,
    ensures
        run(call, replies, at) matches Progress::Finished(done) ==> done.server == (
        if done.result is Ok {
            ServerImpl { state: UpdateState::InProgress, ..call.server }
        } else {
            call.server
        }),
    decreases replies.len() - at,
{
    if at < replies.len() {
        if let Progress::Continue(next) = call.after(replies[at]) {
            lemma_erase(next, replies, at + 1);
        }
    }
}

pub proof fn lemma_erasing(call: Call, erase: BankErase, replies: Seq<FlashReply>, at: int)
    requires
        call.stage == Stage::Erase(erase),
        0 <= at,
    ensures
        requests(call, replies, at) == requests(erase, replies, at),
        answered(call, replies, at) == answered(erase, replies, at),
        match run(erase, replies, at) {
            Progress::Continue(_) => run(call, replies, at) is Continue,
            Progress::Finished(Ok(_)) => run(call, replies, at) == (ServerImpl {
                state: UpdateState::InProgress,
                ..call.server
            }).answer(Ok(())),
            Progress::Finished(Err(error)) => run(call, replies, at) == call.server.answer(
                Err(RequestError::Runtime(error)),
            ),
        },
    decreases replies.len() - at,
{
    if at < replies.len() {
        if let Progress::Continue(next) = erase.after(replies[at]) {
            lemma_erasing(
                Call { server: call.server, stage: Stage::Erase(next) },
                next,
                replies,
                at + 1,
            );
        }
    }
}

/// An update is started by unlocking the bank, if it is locked, and erasing it.
/// It is in progress if and only if the status that is read at the end reports
/// no error, and the error is what the client is told else.
pub proof fn law_start_of_an_update_erases_the_bank(
    server: ServerImpl,
    replies: Seq<FlashReply>,
) -> (early: nat)
    requires
        server.preparing() matches Progress::Continue(call) && run(call, replies, 0) is Finished
            && answered(call, replies, 0),
    ensures
        ({
            let call = server.preparing()->Continue_0;
            let done = run(call, replies, 0)->Finished_0;
            let script = unlock_script(replies[0] == FlashReply::Locked(true)) + erase_script(early);
            &&& requests(call, replies, 0) == script
            &&& script.len() <= replies.len()
            &&& replies[script.len() - 1] matches FlashReply::Status(status) && match reported(
                status,
            ) {
                Ok(_) => done.result is Ok && done.server == (ServerImpl {
                    state: UpdateState::InProgress,
                    ..server
                }),
                Err(error) => done == (Completed {
                    server,
                    result: Err(RequestError::Runtime(error)),
                }),
            }
        }),
{
    reveal_with_fuel(run, 6);
    reveal_with_fuel(requests, 6);
    reveal_with_fuel(answered, 6);
    let call = server.preparing()->Continue_0;
    let locked = replies[0] == FlashReply::Locked(true);
    let at: int = if locked {
        5
    } else {
        1
    };
    let erasing = Call { server, stage: Stage::Erase(BankErase::EnableInterrupt) };
    lemma_erasing(erasing, BankErase::EnableInterrupt, replies, at);
    let early = law_erase_waits_for_the_end(replies, at);
    assert(requests(call, replies, 0) =~= unlock_script(locked) + requests(erasing, replies, at));
    early
}

/// A call on the flash changes no more of the server than it is for, whatever
/// the flash controller answers. A swap of the banks makes the other slot the
/// pending one and does not fail. An erase takes the update from not started to
/// in progress if it succeeds, and changes nothing if it fails. The programming
/// of a block changes nothing.
pub proof fn law_calls_change_what_they_are_for(call: Call, replies: Seq<FlashReply>)
    requires
        call.wf(),
    ensures
        run(call, replies, 0) matches Progress::Finished(done) ==> match call.stage {
            Stage::Swap(_) => done.result is Ok && done.server == (ServerImpl {
                pending: call.server.pending.spec_other(),
                ..call.server
            }),
            Stage::Write(_) => done.server == call.server,
            _ => {
                &&& call.server.state is NoUpdate
                &&& done.server == (if done.result is Ok {
                    ServerImpl { state: UpdateState::InProgress, ..call.server }
                } else {
                    call.server
                })
            },
        },
{
    match call.stage {
        Stage::Swap(swap) => lemma_swap(call, swap, replies, 0),
        Stage::Write(write) => lemma_write(call, write, replies, 0),
        _ => lemma_erase(call, replies, 0),
    }
}

/// The bank is not erased but while there is no update, and nothing is stored
/// in it but while an update is in progress.
pub proof fn law_flash_is_changed_in_its_time(call: Call)
    requires
        call.wf(),
    ensures
        call.asks() == FlashRequest::ModifyControl(erase_started()) ==> call.server.state
            is NoUpdate,
        call.asks() is WriteWord ==> call.server.state is InProgress,
{
}

/// An update that is finished stays so: to start one, to abort it, to program a
/// block and to finish it are all refused, and no call on the flash takes the
/// server out of this state.
pub proof fn law_finished_is_final(server: ServerImpl, call: Call, replies: Seq<FlashReply>)
    requires
        server.state is Finished,
        call.server == server,
        call.wf(),
    ensures
        server.preparing() == server.answer(
            Err(RequestError::Runtime(UpdateError::UpdateAlreadyFinished)),
        ),
        progress_check(server.state) == Err::<(), RequestError<UpdateError>>(
            RequestError::Runtime(UpdateError::UpdateAlreadyFinished),
        ),
        server.moved_to(UpdateState::NoUpdate) == server,
        server.moved_to(UpdateState::Finished) == server,
        run(call, replies, 0) matches Progress::Finished(done) ==> done.server.state is Finished,
{
    law_calls_change_what_they_are_for(call, replies);
}

/// An update that is aborted can be started anew.
pub proof fn law_aborted_update_can_be_started_anew(server: ServerImpl)
    requires
        server.state is InProgress,
    ensures
        server.moved_to(UpdateState::NoUpdate).preparing() is Continue,
{
}

/// The slot that is set is the one that is pending thereafter, and nothing else
/// about the server is any different.
pub proof fn law_slot_that_is_set_is_pending(
    server: ServerImpl,
    slot: SlotId,
    replies: Seq<FlashReply>,
)
    ensures
        match server.setting(slot) {
            Progress::Finished(done) => done.result is Ok && done.server == server
                && server.pending == slot,
            Progress::Continue(call) => run(call, replies, 0) matches Progress::Finished(done) ==> {
                &&& done.result is Ok
                &&& done.server == (ServerImpl { pending: slot, ..server })
            },
        },
{
    if let Progress::Continue(call) = server.setting(slot) {
        lemma_swap(call, SwapBanks::spec_new(), replies, 0);
    }
}

/// A server that starts over finds the slot that was pending. If the pending
/// slot is what the bank swap option says, it is so after a swap too, where the
/// option is what the swap programmed: `swap_bank` is how the banks are swapped
/// now, which does not change before the next boot.
pub proof fn law_pending_slot_survives_a_restart(
    server: ServerImpl,
    replies: Seq<FlashReply>,
    swap_bank_opt: bool,
    swap_bank: bool,
) -> (polls: nat)
    requires
        server.pending == pending_slot(swap_bank_opt, swap_bank),
        ({
            let call = Call { server, stage: Stage::Swap(SwapBanks::spec_new()) };
            let read: int = if replies[0] == FlashReply::Locked(true) {
                5
            } else {
                1
            };
            &&& run(call, replies, 0) is Finished
            &&& answered(call, replies, 0)
            &&& replies[read] matches FlashReply::Options(options) && options.swap_bank_opt
                == swap_bank_opt
        }),
    ensures
        ({
            let call = Call { server, stage: Stage::Swap(SwapBanks::spec_new()) };
            let locked = replies[0] == FlashReply::Locked(true);
            &&& requests(call, replies, 0) == swap_script(locked, swap_bank_opt, polls)
            &&& run(call, replies, 0)->Finished_0.server.pending == pending_slot(
                !swap_bank_opt,
                swap_bank,
            )
        }),
{
    let call = Call { server, stage: Stage::Swap(SwapBanks::spec_new()) };
    lemma_swap(call, SwapBanks::spec_new(), replies, 0);
    law_swap_programs_the_opposite(replies)
}

/// A block that was written successfully stands in the bank thereafter, byte by
/// byte, at the place that its number gives it, followed by zeros up to the
/// length of a block. Each word of that place was stored once, and nothing else
/// in the bank is any different.
pub proof fn law_written_block_is_in_the_bank(
    server: ServerImpl,
    block_num: usize,
    block: Seq<u8>,
    call: Call,
    replies: Seq<FlashReply>,
    contents: Seq<u8>,
)
    requires
        server.wf(),
        server.takes_block(block_num as int, block.len() as int),
        server.sets_out(block_num, block, Progress::Continue(call)),
        call.wf(),
        answered(call, replies, 0),
        run(call, replies, 0) matches Progress::Finished(done) && done.result is Ok,
        contents.len() == server.config.bank.end - server.config.bank.base,
    ensures
        ({
            let bank = server.config.bank;
            let offset = block_num * server.config.block_bytes();
            let made = stores(requests(call, replies, 0));
            &&& run(call, replies, 0)->Finished_0.server == server
            &&& all_stored(bank.base, contents, made) == overwritten(
                contents,
                offset,
                zero_extended(block, server.config.block_bytes()),
            )
            &&& 4 * made.len() == server.config.block_bytes()
            &&& forall|i: int|
                0 <= i < made.len() ==> (#[trigger] made[i]).address == bank.base + offset + 4 * i
        }),
{
    let write = call.stage->Write_0;
    lemma_write(call, write, replies, 0);
    law_programmed_block_is_in_the_bank(
        write,
        replies,
        zero_extended(block, server.config.block_bytes()),
        contents,
    );
    law_stores_follow_the_page(write, replies);
    assert(block_num * server.config.words_per_block * FLASH_WORD_BYTES == block_num * (
    server.config.words_per_block * FLASH_WORD_BYTES)) by (nonlinear_arith);
}

/// To program a block succeeds unless a part of it lies outside of the bank, or
/// the status that is read last reports an error. The client is told which, and
/// the server is left as it is.
pub proof fn law_block_fails_for_a_cause(
    server: ServerImpl,
    block_num: usize,
    block: Seq<u8>,
    progress: Progress<Call, Completed>,
    replies: Seq<FlashReply>,
)
    requires
        server.wf(),
        server.takes_block(block_num as int, block.len() as int),
        server.sets_out(block_num, block, progress),
        progress matches Progress::Continue(call) ==> call.wf() && answered(call, replies, 0),
    ensures
        ({
            let words = server.config.words_per_block;
            let fits = block_num * words + words <= server.config.bank.word_limit();
            let too_long = server.answer(Err(RequestError::Runtime(UpdateError::BadLength)));
            match progress {
                Progress::Finished(_) => progress == if fits {
                    server.answer(Ok(()))
                } else {
                    too_long
                },
                Progress::Continue(call) => run(call, replies, 0) is Finished ==> {
                    let read = requests(call, replies, 0).len();
                    let ended = run(call, replies, 0);
                    ||| fits && ended == server.answer(Ok(()))
                    ||| !fits && ended == too_long
                    ||| {
                        &&& 0 < read <= replies.len()
                        &&& replies[read - 1] matches FlashReply::Status(status) && reported(
                            status,
                        ) matches Err(error) && ended == server.answer(
                            Err(RequestError::Runtime(error)),
                        )
                    }
                },
            }
        }),
{
    if let Progress::Continue(call) = progress {
        let write = call.stage->Write_0;
        lemma_write(call, write, replies, 0);
        law_stores_follow_the_page(write, replies);
        if run(write, replies, 0) matches Progress::Finished(outcome) && outcome is Err {
            law_failures_have_a_cause(write, replies);
        }
    }
}

proof fn lemma_same_pages(a: WriteBlock, b: WriteBlock, replies: Seq<FlashReply>, at: int)
    requires
        0 <= at,
        a.bank == b.bank,
        a.first == b.first,
        a.page@ == b.page@,
        a.index == b.index,
        a.word == b.word,
    ensures
        requests(a, replies, at) == requests(b, replies, at),
        answered(a, replies, at) == answered(b, replies, at),
        match (run(a, replies, at), run(b, replies, at)) {
            (Progress::Finished(x), Progress::Finished(y)) => x == y,
            (Progress::Continue(_), Progress::Continue(_)) => true,
            _ => false,
        },
    decreases replies.len() - at,
{
    if at < replies.len() {
        if let Progress::Continue(next_a) = a.after(replies[at]) {
            let next_b = b.after(replies[at])->Continue_0;
            lemma_same_pages(next_a, next_b, replies, at + 1);
        }
    }
}

/// A block is programmed as the same block with zeros behind it is: if the flash
/// controller answers the same, the same is asked of it, and the calls come out
/// the same.
pub proof fn law_padding_changes_nothing(
    server: ServerImpl,
    block_num: usize,
    block: Seq<u8>,
    padded_len: int,
    short: Progress<Call, Completed>,
    padded: Progress<Call, Completed>,
    replies: Seq<FlashReply>,
)
    requires
        server.wf(),
        server.takes_block(block_num as int, padded_len),
        block.len() <= padded_len,
        server.sets_out(block_num, block, short),
        server.sets_out(block_num, zero_extended(block, padded_len), padded),
    ensures
        match (short, padded) {
            (Progress::Continue(a), Progress::Continue(b)) => {
                &&& requests(a, replies, 0) == requests(b, replies, 0)
                &&& answered(a, replies, 0) == answered(b, replies, 0)
                &&& match (run(a, replies, 0), run(b, replies, 0)) {
                    (Progress::Finished(x), Progress::Finished(y)) => x == y,
                    (Progress::Continue(_), Progress::Continue(_)) => true,
                    _ => false,
                }
            },
            (Progress::Finished(x), Progress::Finished(y)) => x == y,
            _ => false,
        },
{
    let len = server.config.block_bytes();
    let bank = server.config.bank;
    let first = (block_num * server.config.words_per_block) as usize;
    let page = choose|page: Vec<[u32; 8]>|
        #![trigger page@]
        {
            &&& page@.len() == server.config.words_per_block
            &&& page_stores(page@, zero_extended(block, len))
            &&& short == server.writing(WriteBlock::from(bank, first, page, 0))
        };
    let padded_page = choose|page: Vec<[u32; 8]>|
        #![trigger page@]
        {
            &&& page@.len() == server.config.words_per_block
            &&& page_stores(page@, zero_extended(zero_extended(block, padded_len), len))
            &&& padded == server.writing(WriteBlock::from(bank, first, page, 0))
        };
    law_padding_leaves_the_page_alone(
        native_order(),
        block,
        padded_len,
        len,
        page@,
        padded_page@,
    );
    if let (Progress::Continue(a), Progress::Continue(b)) = (short, padded) {
        lemma_write(a, a.stage->Write_0, replies, 0);
        lemma_write(b, b.stage->Write_0, replies, 0);
        lemma_same_pages(a.stage->Write_0, b.stage->Write_0, replies, 0);
    }
}

} // verus!
