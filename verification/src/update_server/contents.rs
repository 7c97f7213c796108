//! What the programming of a block comes to in the flash.
use crate::procedure::{answered, requests, run, Procedure, Progress};
use crate::update_server::bank::{Bank, FLASH_WORD_BYTES, FLASH_WORD_WORDS};
use crate::update_server::block::{
    law_words_keep_their_bytes, native_order, page_stores, WriteBlock,
};
use crate::update_server::program::WriteStage;
use crate::update_server::registers::{FlashReply, FlashRequest};
use crate::update_server::status::{first_raised, reported};
use crate::update_server::types::UpdateError;
use vstd::prelude::*;

verus! {

/// A word that is stored at an address.
pub struct Store {
    /// Where.
    pub address: u32,
    /// What.
    pub word: u32,
}

/// The stores among some requests, in order.
pub open spec fn stores(asked: Seq<FlashRequest>) -> Seq<Store>
    decreases asked.len(),
{
    if asked.len() == 0 {
        Seq::empty()
    } else {
        (match asked[0] {
            FlashRequest::WriteWord { address, word } => seq![Store { address, word }],
            _ => Seq::empty(),
        }) + stores(asked.skip(1))
    }
}

/// The store with which word `k` of a page is programmed, where the words of
/// all its flash words are counted through.
pub open spec fn page_store(
    bank: Bank,
    first: int,
    page: Seq<[u32; FLASH_WORD_WORDS]>,
    k: int,
) -> Store {
    Store {
        address: (bank.word_address(first) + 4 * k) as u32,
        word: page[k / FLASH_WORD_WORDS as int]@[k % FLASH_WORD_WORDS as int],
    }
}

/// How many flash words of a page lie in the bank.
pub open spec fn words_inside(bank: Bank, first: int, page: Seq<[u32; FLASH_WORD_WORDS]>) -> int {
    if first + page.len() <= bank.word_limit() {
        page.len() as int
    } else {
        bank.word_limit() - first
    }
}

/// The stores that program what lies in the bank of a page, from word `k` on.
pub open spec fn page_stores_from(
    bank: Bank,
    first: int,
    page: Seq<[u32; FLASH_WORD_WORDS]>,
    k: int,
) -> Seq<Store> {
    Seq::new(
        (words_inside(bank, first, page) * FLASH_WORD_WORDS - k) as nat,
        |i: int| page_store(bank, first, page, k + i),
    )
}

/// How many words of the page have been stored.
spec fn cursor(write: WriteBlock) -> int {
    write.index * FLASH_WORD_WORDS + match write.word.stage {
        WriteStage::Configure => 0,
        WriteStage::Store(index) => index as int,
        WriteStage::Poll => FLASH_WORD_WORDS as int,
        WriteStage::Status => FLASH_WORD_WORDS as int,
    }
}

proof fn lemma_stores_of_run(write: WriteBlock, replies: Seq<FlashReply>, at: int)
    requires
        0 <= at,
        write.wf(),
        answered(write, replies, at),
    ensures
        ({
            let page = write.page@;
            let first = write.first as int;
            let made = stores(requests(write, replies, at));
            let all = page_stores_from(write.bank, first, page, cursor(write));
            &&& made.is_prefix_of(all)
            &&& match run(write, replies, at) {
                Progress::Continue(_) => true,
                Progress::Finished(Ok(_)) => made == all && first + page.len()
                    <= write.bank.word_limit(),
                Progress::Finished(Err(error)) => error == UpdateError::BadLength ==> made == all
                    && first + page.len() > write.bank.word_limit(),
            }
        }),
    decreases replies.len() - at,
{
    let page = write.page@;
    let first = write.first as int;
    let all = page_stores_from(write.bank, first, page, cursor(write));
    let asked = requests(write, replies, at);
    if at < replies.len() {
        let k = cursor(write);
        let step: Seq<Store> = match write.asks() {
            FlashRequest::WriteWord { address, word } => seq![Store { address, word }],
            _ => Seq::empty(),
        };
        match write.after(replies[at]) {
            Progress::Continue(next) => {
                lemma_stores_of_run(next, replies, at + 1);
                assert(asked.skip(1) == requests(next, replies, at + 1));
                let rest = stores(requests(next, replies, at + 1));
                let rest_all = page_stores_from(write.bank, first, page, cursor(next));
                assert(stores(asked) == step + rest);
                if let WriteStage::Store(index) = write.word.stage {
                    assert(k / FLASH_WORD_WORDS as int == write.index);
                    assert(k % FLASH_WORD_WORDS as int == index);
                    assert(cursor(next) == k + 1);
                } else {
                    assert(cursor(next) == k);
                }
                assert(all == step + rest_all);
                assert((step + rest).is_prefix_of(step + rest_all)) by {
                    assert forall|i: int| 0 <= i < (step + rest).len() implies (step + rest)[i]
                        == (step + rest_all)[i] by {
                        if i >= step.len() {
                            assert(rest[i - step.len()] == rest_all[i - step.len()]);
                        }
                    }
                    assert(step + rest == (step + rest_all).take((step + rest).len() as int));
                }
            },
            Progress::Finished(_) => {
                assert(write.word.stage is Status);
                assert(asked == seq![FlashRequest::ReadStatus]);
                assert(stores(asked) == Seq::<Store>::empty()) by {
                    reveal_with_fuel(stores, 2);
                }
                let status = replies[at]->Status_0;
                assert(reported(status) != Err::<(), UpdateError>(UpdateError::BadLength)) by {
                    reveal_with_fuel(first_raised, 10);
                }
            },
        }
    }
}

/// The programming of a block stores the words of its page at consecutive
/// addresses, in order, and nothing else. It stores all of them if it succeeds,
/// and all that lie in the bank if it fails because some do not.
pub proof fn law_stores_follow_the_page(write: WriteBlock, replies: Seq<FlashReply>)
    requires
        write.wf(),
        WriteBlock::from(write.bank, write.first, write.page, 0) == Progress::<
            WriteBlock,
            Result<(), UpdateError>,
        >::Continue(write),
        answered(write, replies, 0),
    ensures
        ({
            let made = stores(requests(write, replies, 0));
            let all = page_stores_from(write.bank, write.first as int, write.page@, 0);
            &&& made.is_prefix_of(all)
            &&& match run(write, replies, 0) {
                Progress::Continue(_) => true,
                Progress::Finished(Ok(_)) => made == all && write.first + write.page@.len()
                    <= write.bank.word_limit(),
                Progress::Finished(Err(error)) => error == UpdateError::BadLength ==> made == all
                    && write.first + write.page@.len() > write.bank.word_limit(),
            }
        }),
{
    lemma_stores_of_run(write, replies, 0);
}

proof fn lemma_failure(write: WriteBlock, replies: Seq<FlashReply>, at: int) -> (n: int)
    requires
        0 <= at,
        write.wf(),
        answered(write, replies, at),
        run(write, replies, at) matches Progress::Finished(outcome) && outcome matches Err(error)
            && error != UpdateError::BadLength,
    ensures
        ({
            let asked = requests(write, replies, at);
            let all = page_stores_from(write.bank, write.first as int, write.page@, cursor(write));
            &&& write.index <= n < words_inside(write.bank, write.first as int, write.page@)
            &&& stores(asked) == all.take((n + 1) * FLASH_WORD_WORDS - cursor(write))
            &&& 0 < asked.len() <= replies.len() - at
            &&& replies[at + asked.len() - 1] matches FlashReply::Status(status) && run(
                write,
                replies,
                at,
            ) == Progress::<WriteBlock, Result<(), UpdateError>>::Finished(reported(status))
        }),
    decreases replies.len() - at,
{
    lemma_stores_of_run(write, replies, at);
    let asked = requests(write, replies, at);
    match write.after(replies[at]) {
        Progress::Continue(next) => {
            let n = lemma_failure(next, replies, at + 1);
            let rest = requests(next, replies, at + 1);
            assert(asked.skip(1) == rest);
            assert(stores(asked).len() == (n + 1) * FLASH_WORD_WORDS - cursor(write));
            n
        },
        Progress::Finished(_) => {
            assert(asked == seq![FlashRequest::ReadStatus]);
            assert(stores(asked) == Seq::<Store>::empty()) by {
                reveal_with_fuel(stores, 2);
            }
            write.index as int
        },
    }
}

/// The programming of a block does not fail without a cause. Either a part of
/// the block lies outside of the bank, and what lies in it has been stored; or
/// the last status that was read, that of flash word `n` of the page, reports
/// the very error that it fails with, and the flash words up to and including
/// that one have been stored.
pub proof fn law_failures_have_a_cause(write: WriteBlock, replies: Seq<FlashReply>) -> (n: int)
    requires
        write.wf(),
        WriteBlock::from(write.bank, write.first, write.page, 0) == Progress::<
            WriteBlock,
            Result<(), UpdateError>,
        >::Continue(write),
        answered(write, replies, 0),
        run(write, replies, 0) matches Progress::Finished(outcome) && outcome is Err,
    ensures
        ({
            let outcome = run(write, replies, 0)->Finished_0;
            let asked = requests(write, replies, 0);
            let all = page_stores_from(write.bank, write.first as int, write.page@, 0);
            if outcome == Err::<(), UpdateError>(UpdateError::BadLength) {
                &&& write.first + write.page@.len() > write.bank.word_limit()
                &&& stores(asked) == all
            } else {
                &&& 0 <= n < words_inside(write.bank, write.first as int, write.page@)
                &&& stores(asked) == all.take((n + 1) * FLASH_WORD_WORDS)
                &&& 0 < asked.len() <= replies.len()
                &&& replies[asked.len() - 1] matches FlashReply::Status(status) && reported(status)
                    == outcome
            }
        }),
{
    lemma_stores_of_run(write, replies, 0);
    if run(write, replies, 0)->Finished_0 == Err::<(), UpdateError>(UpdateError::BadLength) {
        0
    } else {
        lemma_failure(write, replies, 0)
    }
}

/// Whatever the flash controller answers, the programming of a block stores
/// nothing outside of the bank.
pub proof fn law_stores_stay_in_the_bank(write: WriteBlock, replies: Seq<FlashReply>)
    requires
        write.wf(),
        answered(write, replies, 0),
    ensures
        forall|i: int|
            0 <= i < stores(requests(write, replies, 0)).len() ==> {
                let address = (#[trigger] stores(requests(write, replies, 0))[i]).address;
                write.bank.base <= address && address + 4 <= write.bank.end
            },
{
    lemma_stores_of_run(write, replies, 0);
    let made = stores(requests(write, replies, 0));
    let all = page_stores_from(write.bank, write.first as int, write.page@, cursor(write));
    assert forall|i: int| 0 <= i < made.len() implies {
        let address = (#[trigger] made[i]).address;
        write.bank.base <= address && address + 4 <= write.bank.end
    } by {
        assert(made[i] == all[i]);
    }
}

/// `contents`, the bytes that begin at `base`, once the processor has stored a
/// word.
pub open spec fn stored(base: u32, contents: Seq<u8>, store: Store) -> Seq<u8> {
    let offset = store.address - base;
    Seq::new(
        contents.len(),
        |i: int|
            if offset <= i < offset + 4 {
                native_order().bytes(store.word)[i - offset]
            } else {
                contents[i]
            },
    )
}

/// `contents` once some words have been stored, one after the other.
pub open spec fn all_stored(
    base: u32,
    contents: Seq<u8>,
    made: Seq<Store>,
) -> Seq<u8>
    decreases made.len(),
{
    if made.len() == 0 {
        contents
    } else {
        stored(base, all_stored(base, contents, made.drop_last()), made.last())
    }
}

/// `contents` with the bytes from index `offset` on replaced by `bytes`.
pub open spec fn overwritten(contents: Seq<u8>, offset: int, bytes: Seq<u8>) -> Seq<u8> {
    Seq::new(
        contents.len(),
        |i: int|
            if offset <= i < offset + bytes.len() {
                bytes[i - offset]
            } else {
                contents[i]
            },
    )
}

proof fn lemma_page_in_contents(
    bank: Bank,
    first: int,
    page: Seq<[u32; FLASH_WORD_WORDS]>,
    bytes: Seq<u8>,
    contents: Seq<u8>,
    n: int,
)
    requires
        bank.wf(),
        0 <= first,
        first + page.len() <= bank.word_limit(),
        bytes.len() == page.len() * FLASH_WORD_BYTES,
        page_stores(page, bytes),
        contents.len() == bank.end - bank.base,
        0 <= n <= page.len() * FLASH_WORD_WORDS,
    ensures
        all_stored(
            bank.base,
            contents,
            page_stores_from(bank, first, page, 0).take(n),
        ) == overwritten(contents, first * FLASH_WORD_BYTES, bytes.take(4 * n)),
    decreases n,
{
    let all = page_stores_from(bank, first, page, 0);
    let offset = first * FLASH_WORD_BYTES;
    if n > 0 {
        lemma_page_in_contents(bank, first, page, bytes, contents, n - 1);
        assert(all.take(n).drop_last() == all.take(n - 1));
        let k = n - 1;
        let i = k / FLASH_WORD_WORDS as int;
        let j = k % FLASH_WORD_WORDS as int;
        let store = page_store(bank, first, page, k);
        assert(all.take(n).last() == store);
        let four = bytes.subrange(FLASH_WORD_BYTES * i + 4 * j, FLASH_WORD_BYTES * i + 4 * j + 4);
        assert(page[i]@[j] == native_order().word(four));
        law_words_keep_their_bytes(native_order(), four);
        assert(store.address - bank.base == offset + 4 * k);
        assert(native_order().bytes(store.word) == bytes.subrange(4 * k, 4 * k + 4));
        let before = overwritten(contents, offset, bytes.take(4 * k));
        assert(stored(bank.base, before, store) == overwritten(
            contents,
            offset,
            bytes.take(4 * n),
        )) by {
            assert forall|x: int| 0 <= x < contents.len() implies #[trigger] stored(
                bank.base,
                before,
                store,
            )[x] == overwritten(contents, offset, bytes.take(4 * n))[x] by {
                if offset + 4 * k <= x < offset + 4 * n {
                    assert(bytes.subrange(4 * k, 4 * k + 4)[x - offset - 4 * k] == bytes[x
                        - offset]);
                }
            }
        }
    } else {
        assert(all.take(0) == Seq::<Store>::empty());
        assert(overwritten(contents, offset, bytes.take(0)) == contents);
    }
}

/// A block whose programming succeeds stands in the bank thereafter, byte by
/// byte, and nothing else in the bank is any different.
pub proof fn law_programmed_block_is_in_the_bank(
    write: WriteBlock,
    replies: Seq<FlashReply>,
    bytes: Seq<u8>,
    contents: Seq<u8>,
)
    requires
        write.wf(),
        WriteBlock::from(write.bank, write.first, write.page, 0) == Progress::<
            WriteBlock,
            Result<(), UpdateError>,
        >::Continue(write),
        answered(write, replies, 0),
        run(write, replies, 0) matches Progress::Finished(outcome) && outcome is Ok,
        bytes.len() == write.page@.len() * FLASH_WORD_BYTES,
        page_stores(write.page@, bytes),
        contents.len() == write.bank.end - write.bank.base,
    ensures
        all_stored(write.bank.base, contents, stores(requests(write, replies, 0)))
            == overwritten(contents, write.first * FLASH_WORD_BYTES, bytes),
{
    lemma_stores_of_run(write, replies, 0);
    let n = write.page@.len() * FLASH_WORD_WORDS;
    let all = page_stores_from(write.bank, write.first as int, write.page@, 0);
    lemma_page_in_contents(
        write.bank,
        write.first as int,
        write.page@,
        bytes,
        contents,
        n as int,
    );
    assert(all.take(n as int) == all);
    assert(bytes.take(4 * n as int) == bytes);
}

} // verus!
