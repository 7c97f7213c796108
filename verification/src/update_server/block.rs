//! Programming a block: as many flash words as are processed at a time.
use crate::procedure::{Procedure, Progress};
use crate::update_server::bank::{Bank, FLASH_WORD_BYTES, FLASH_WORD_WORDS};
use crate::update_server::program::{write_word, WriteWord};
use crate::update_server::registers::{FlashReply, FlashRequest};
use crate::update_server::types::UpdateError;
use vstd::arithmetic::div_mod::lemma_fundamental_div_mod_converse;
use vstd::endian::{endianness, Endian};
use vstd::prelude::*;
use zerocopy::AsBytes;

verus! {

/// An order in which a processor keeps the bytes of a word in memory.
pub enum ByteOrder {
    /// The byte of least weight first.
    Little,
    /// The byte of most weight first.
    Big,
}

impl ByteOrder {
    /// The word that four bytes make up.
    pub open spec fn word(self, bytes: Seq<u8>) -> u32 {
        match self {
            ByteOrder::Little => (bytes[0] + 0x100 * bytes[1] + 0x1_0000 * bytes[2] + 0x100_0000
                * bytes[3]) as u32,
            ByteOrder::Big => (bytes[3] + 0x100 * bytes[2] + 0x1_0000 * bytes[1] + 0x100_0000
                * bytes[0]) as u32,
        }
    }

    /// The four bytes that a word is kept in.
    pub open spec fn bytes(self, word: u32) -> Seq<u8> {
        match self {
            ByteOrder::Little => seq![
                (word % 0x100) as u8,
                (word / 0x100 % 0x100) as u8,
                (word / 0x1_0000 % 0x100) as u8,
                (word / 0x100_0000) as u8,
            ],
            ByteOrder::Big => seq![
                (word / 0x100_0000) as u8,
                (word / 0x1_0000 % 0x100) as u8,
                (word / 0x100 % 0x100) as u8,
                (word % 0x100) as u8,
            ],
        }
    }
}

/// The order of the processor that the program runs on.
pub open spec fn native_order() -> ByteOrder {
    match endianness() {
        Endian::Little => ByteOrder::Little,
        Endian::Big => ByteOrder::Big,
    }
}

proof fn lemma_parts(b0: u8, b1: u8, b2: u8, b3: u8)
    ensures
        ({
            let word = b0 + 0x100 * b1 + 0x1_0000 * b2 + 0x100_0000 * b3;
            &&& word <= u32::MAX
            &&& word % 0x100 == b0
            &&& word / 0x100 % 0x100 == b1
            &&& word / 0x1_0000 % 0x100 == b2
            &&& word / 0x100_0000 == b3
        }),
{
    let word = b0 + 0x100 * b1 + 0x1_0000 * b2 + 0x100_0000 * b3;
    let above_b1 = b2 + 0x100 * b3;
    let above_b0 = b1 + 0x100 * above_b1;
    lemma_fundamental_div_mod_converse(word, 0x100, above_b0, b0 as int);
    lemma_fundamental_div_mod_converse(above_b0, 0x100, above_b1, b1 as int);
    lemma_fundamental_div_mod_converse(word, 0x1_0000, above_b1, b0 + 0x100 * b1);
    lemma_fundamental_div_mod_converse(above_b1, 0x100, b3 as int, b2 as int);
    lemma_fundamental_div_mod_converse(
        word,
        0x100_0000,
        b3 as int,
        b0 + 0x100 * b1 + 0x1_0000 * b2,
    );
}

/// In either order, a word is kept in the bytes that make it up.
pub proof fn law_words_keep_their_bytes(order: ByteOrder, bytes: Seq<u8>)
    requires
        bytes.len() == 4,
    ensures
        order.bytes(order.word(bytes)) == bytes,
{
    match order {
        ByteOrder::Little => lemma_parts(bytes[0], bytes[1], bytes[2], bytes[3]),
        ByteOrder::Big => lemma_parts(bytes[3], bytes[2], bytes[1], bytes[0]),
    }
    assert(order.bytes(order.word(bytes)) =~= bytes);
}

/// The flash words of `page` hold `bytes`, in order, four to a word.
pub open spec fn page_holds(
    order: ByteOrder,
    page: Seq<[u32; FLASH_WORD_WORDS]>,
    bytes: Seq<u8>,
) -> bool {
    forall|i: int, j: int|
        0 <= i < page.len() && 0 <= j < FLASH_WORD_WORDS ==> #[trigger] page[i]@[j] == order.word(
            bytes.subrange(FLASH_WORD_BYTES * i + 4 * j, FLASH_WORD_BYTES * i + 4 * j + 4),
        )
}

/// The flash words of `page` are kept in memory as `bytes`, in the order of the
/// processor.
pub open spec fn page_stores(page: Seq<[u32; FLASH_WORD_WORDS]>, bytes: Seq<u8>) -> bool {
    page_holds(native_order(), page, bytes)
}

/// `block`, followed by zeros up to a length of `len`.
pub open spec fn zero_extended(block: Seq<u8>, len: int) -> Seq<u8> {
    block + Seq::new((len - block.len()) as nat, |i: int| 0u8)
}

/// A block that is filled up with zeros in two steps is filled up as it is in
/// one.
pub proof fn law_padding_is_padded_no_further(block: Seq<u8>, padded_len: int, len: int)
    requires
        block.len() <= padded_len <= len,
    ensures
        zero_extended(zero_extended(block, padded_len), len) == zero_extended(block, len),
{
}

/// A block gives the same page as the same block with zeros behind it, in
/// either order.
pub proof fn law_padding_leaves_the_page_alone(
    order: ByteOrder,
    block: Seq<u8>,
    padded_len: int,
    len: int,
    page: Seq<[u32; FLASH_WORD_WORDS]>,
    padded_page: Seq<[u32; FLASH_WORD_WORDS]>,
)
    requires
        block.len() <= padded_len <= len,
        page.len() == padded_page.len(),
        page_holds(order, page, zero_extended(block, len)),
        page_holds(order, padded_page, zero_extended(zero_extended(block, padded_len), len)),
    ensures
        page == padded_page,
{
    law_padding_is_padded_no_further(block, padded_len, len);
    assert forall|i: int| 0 <= i < page.len() implies page[i] == padded_page[i] by {
        assert(page[i]@ =~= padded_page[i]@);
    }
}

/// The page of an empty block is all zeros, in either order.
pub proof fn law_empty_block_gives_zeros(order: ByteOrder, page: Seq<[u32; FLASH_WORD_WORDS]>)
    requires
        page_holds(order, page, zero_extended(Seq::empty(), page.len() * FLASH_WORD_BYTES)),
    ensures
        forall|i: int, j: int|
            0 <= i < page.len() && 0 <= j < FLASH_WORD_WORDS ==> #[trigger] page[i]@[j] == 0,
{
    let bytes = zero_extended(Seq::empty(), page.len() * FLASH_WORD_BYTES);
    assert forall|i: int, j: int|
        0 <= i < page.len() && 0 <= j < FLASH_WORD_WORDS implies #[trigger] page[i]@[j] == 0 by {
        let four = bytes.subrange(FLASH_WORD_BYTES * i + 4 * j, FLASH_WORD_BYTES * i + 4 * j + 4);
        assert(page[i]@[j] == order.word(four));
        assert(four =~= seq![0u8, 0u8, 0u8, 0u8]);
    }
}

/// Each word of a page is made up of the four bytes of the block at its place,
/// zeros standing for those behind the end, in the order of the processor.
pub proof fn law_words_are_made_up_of_the_bytes(
    block: Seq<u8>,
    words_per_block: int,
    page: Seq<[u32; FLASH_WORD_WORDS]>,
)
    requires
        block.len() <= words_per_block * FLASH_WORD_BYTES,
        page.len() == words_per_block,
        page_stores(page, zero_extended(block, words_per_block * FLASH_WORD_BYTES)),
    ensures
        ({
            let byte = |k: int|
                if k < block.len() {
                    block[k]
                } else {
                    0u8
                };
            forall|i: int, j: int|
                0 <= i < words_per_block && 0 <= j < 8 ==> {
                    let k = 32 * i + 4 * j;
                    #[trigger] page[i]@[j] == if endianness() is Little {
                        byte(k) + 0x100 * byte(k + 1) + 0x1_0000 * byte(k + 2) + 0x100_0000 * byte(
                            k + 3,
                        )
                    } else {
                        byte(k + 3) + 0x100 * byte(k + 2) + 0x1_0000 * byte(k + 1) + 0x100_0000
                            * byte(k)
                    }
                }
        }),
{
    let bytes = zero_extended(block, words_per_block * FLASH_WORD_BYTES);
    let byte = |k: int|
        if k < block.len() {
            block[k]
        } else {
            0u8
        };
    assert forall|i: int, j: int| 0 <= i < words_per_block && 0 <= j < 8 implies {
        let k = 32 * i + 4 * j;
        #[trigger] page[i]@[j] == if endianness() is Little {
            byte(k) + 0x100 * byte(k + 1) + 0x1_0000 * byte(k + 2) + 0x100_0000 * byte(k + 3)
        } else {
            byte(k + 3) + 0x100 * byte(k + 2) + 0x1_0000 * byte(k + 1) + 0x100_0000 * byte(k)
        }
    } by {
        let k = 32 * i + 4 * j;
        let four = bytes.subrange(k, k + 4);
        assert(page[i]@[j] == native_order().word(four));
        assert(four[0] == byte(k) && four[1] == byte(k + 1) && four[2] == byte(k + 2) && four[3]
            == byte(k + 3));
        lemma_parts(four[0], four[1], four[2], four[3]);
        lemma_parts(four[3], four[2], four[1], four[0]);
    }
}

/// The memory of a page, as bytes.
///
/// It is had from `zerocopy::AsBytes::as_bytes_mut`, which views a slice of
/// arrays of words as the bytes that it is kept in. Arrays lie one behind the
/// other without gaps, and the words in them likewise, so that each four bytes
/// are one word, in the order that the processor keeps its bytes in, both as
/// the page is lent out and when it is given back.
#[verifier::external_body]
fn page_bytes(page: &mut Vec<[u32; FLASH_WORD_WORDS]>) -> (bytes: &mut [u8])
    ensures
        bytes@.len() == old(page)@.len() * FLASH_WORD_BYTES,
        page_stores(old(page)@, bytes@),
        final(bytes)@.len() == bytes@.len(),
        final(page)@.len() == old(page)@.len(),
        page_stores(final(page)@, final(bytes)@),
{
    page.as_mut_slice().as_bytes_mut()
}

/// Puts `block` at the beginning of `bytes`, and zeros behind it.
fn fill(bytes: &mut [u8], block: &[u8])
    requires
        block@.len() <= old(bytes)@.len(),
    ensures
        final(bytes)@ == zero_extended(block@, old(bytes)@.len() as int),
{
    let len: usize = bytes.len();
    let mut n: usize = 0;
    while n < len
        invariant
            block@.len() <= len,
            bytes@.len() == len,
            n <= len,
            bytes@.take(n as int) == zero_extended(block@, len as int).take(n as int),
        decreases len - n,
    {
        if n < block.len() {
            bytes[n] = block[n];
        } else {
            bytes[n] = 0;
        }
        n += 1;
    }
    assert(bytes@ == bytes@.take(len as int));
}

/// Lays a block out as flash words. What is missing to a whole block is filled
/// up with zeros.
pub fn flash_page(block: &[u8], words_per_block: usize) -> (page: Vec<[u32; FLASH_WORD_WORDS]>)
    requires
        block@.len() <= words_per_block * FLASH_WORD_BYTES <= usize::MAX,
    ensures
        page@.len() == words_per_block,
        page_stores(page@, zero_extended(block@, words_per_block * FLASH_WORD_BYTES)),
        ({
            let byte = |k: int|
                if k < block@.len() {
                    block@[k]
                } else {
                    0u8
                };
            forall|i: int, j: int|
                0 <= i < words_per_block && 0 <= j < 8 ==> {
                    let k = 32 * i + 4 * j;
                    #[trigger] page@[i]@[j] == if endianness() is Little {
                        byte(k) + 0x100 * byte(k + 1) + 0x1_0000 * byte(k + 2) + 0x100_0000 * byte(
                            k + 3,
                        )
                    } else {
                        byte(k + 3) + 0x100 * byte(k + 2) + 0x1_0000 * byte(k + 1) + 0x100_0000
                            * byte(k)
                    }
                }
        }),
{
    let mut page: Vec<[u32; FLASH_WORD_WORDS]> = Vec::new();
    let mut i: usize = 0;
    while i < words_per_block
        invariant
            i <= words_per_block,
            page@.len() == i,
        decreases words_per_block - i,
    {
        page.push([0, 0, 0, 0, 0, 0, 0, 0]);
        i += 1;
    }
    fill(page_bytes(&mut page), block);
    proof {
        law_words_are_made_up_of_the_bytes(block@, words_per_block as int, page@);
    }
    page
}

/// The programming of a block, one flash word after the other.
#[derive(Debug, PartialEq, Eq)]
pub struct WriteBlock {
    /// Where the block goes.
    pub bank: Bank,
    /// The number of its first flash word.
    pub first: usize,
    /// Its flash words.
    pub page: Vec<[u32; FLASH_WORD_WORDS]>,
    /// The index of the one that is being programmed.
    pub index: usize,
    /// The programming of that one.
    pub word: WriteWord,
}

impl WriteBlock {
    /// The programming of `page`, from the flash word of index `index` on. The
    /// first flash word that lies outside of the bank ends it.
    pub open spec fn from(
        bank: Bank,
        first: usize,
        page: Vec<[u32; FLASH_WORD_WORDS]>,
        index: int,
    ) -> Progress<WriteBlock, Result<(), UpdateError>> {
        if index >= page@.len() {
            Progress::Finished(Ok(()))
        } else {
            match bank.spec_locate(first + index) {
                Ok(start) => Progress::Continue(
                    WriteBlock {
                        bank,
                        first,
                        page,
                        index: index as usize,
                        word: WriteWord::at(start, page@[index]),
                    },
                ),
                Err(error) => Progress::Finished(Err(error)),
            }
        }
    }

    /// Flash words `first` and following, `len` of them, can be asked about up
    /// to the first that lies outside of the bank.
    pub open spec fn in_reach(bank: Bank, first: int, len: int) -> bool {
        &&& 0 <= first <= bank.word_limit()
        &&& first + len > bank.word_limit() ==> bank.reaches(bank.word_limit())
    }

    /// Sets out to program `page` from the flash word of index `index` on.
    pub fn start(
        bank: Bank,
        first: usize,
        page: Vec<[u32; FLASH_WORD_WORDS]>,
        index: usize,
    ) -> (progress: Progress<WriteBlock, Result<(), UpdateError>>)
        requires
            bank.wf(),
            WriteBlock::in_reach(bank, first as int, page@.len() as int),
            first + index <= bank.word_limit(),
        ensures
            progress == WriteBlock::from(bank, first, page, index as int),
            progress matches Progress::Continue(next) ==> next.wf(),
    {
        if index >= page.len() {
            return Progress::Finished(Ok(()));
        }
        match write_word(&bank, first + index, page[index]) {
            Ok(word) => Progress::Continue(WriteBlock { bank, first, page, index, word }),
            Err(error) => Progress::Finished(Err(error)),
        }
    }
}

impl Procedure for WriteBlock {
    type Request = FlashRequest;

    type Reply = FlashReply;

    type Outcome = Result<(), UpdateError>;

    open spec fn wf(self) -> bool {
        &&& self.bank.wf()
        &&& WriteBlock::in_reach(self.bank, self.first as int, self.page@.len() as int)
        &&& self.index < self.page@.len()
        &&& self.bank.spec_locate(self.first + self.index) == Ok::<u32, UpdateError>(self.word.start)
        &&& self.word.words == self.page@[self.index as int]
        &&& self.word.wf()
    }

    open spec fn asks(self) -> FlashRequest {
        self.word.asks()
    }

    open spec fn accepts(self, reply: FlashReply) -> bool {
        self.word.accepts(reply)
    }

    open spec fn after(self, reply: FlashReply) -> Progress<WriteBlock, Result<(), UpdateError>> {
        match self.word.after(reply) {
            Progress::Continue(word) => Progress::Continue(WriteBlock { word, ..self }),
            Progress::Finished(Ok(_)) => WriteBlock::from(
                self.bank,
                self.first,
                self.page,
                self.index + 1,
            ),
            Progress::Finished(Err(error)) => Progress::Finished(Err(error)),
        }
    }

    fn request(&self) -> (request: FlashRequest) {
        self.word.request()
    }

    fn resume(self, reply: FlashReply) -> (progress: Progress<WriteBlock, Result<(), UpdateError>>) {
        match self.word.resume(reply) {
            Progress::Continue(word) => {
                Progress::Continue(
                    WriteBlock {
                        bank: self.bank,
                        first: self.first,
                        page: self.page,
                        index: self.index,
                        word,
                    },
                )
            },
            Progress::Finished(Ok(_)) => {
                WriteBlock::start(self.bank, self.first, self.page, self.index + 1)
            },
            Progress::Finished(Err(error)) => Progress::Finished(Err(error)),
        }
    }
}

} // verus!
