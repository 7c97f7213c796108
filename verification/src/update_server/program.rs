//! Programming one flash word (RM0433 Rev 7, section 4.3.9, the single write
//! sequence).
use crate::procedure::{answered, requests, run, Procedure, Progress};
use crate::update_server::bank::{Bank, FLASH_WORD_BYTES, FLASH_WORD_WORDS};
use crate::update_server::registers::{ControlChange, FlashReply, FlashRequest};
use crate::update_server::status::{bank2_status, reported};
use crate::update_server::types::UpdateError;
use vstd::prelude::*;

verus! {

/// What is outstanding in the programming of a flash word.
#[derive(Clone, Copy, Debug, PartialEq, Eq)]
pub enum WriteStage {
    /// Switching the bank to programming.
    Configure,
    /// Storing the word of this index.
    Store(usize),
    /// Waiting for the write queue to be empty. That it was ever filled is not
    /// asked for: it may have been emptied already.
    Poll,
    /// Finding out how the programming went.
    Status,
}

/// The programming of one flash word.
#[derive(Clone, Copy, Debug, PartialEq, Eq)]
pub struct WriteWord {
    /// Where the flash word begins.
    pub start: u32,
    /// What is to stand there.
    pub words: [u32; FLASH_WORD_WORDS],
    /// What is outstanding.
    pub stage: WriteStage,
}

/// The change that switches a bank to programming: stores go out in parallel
/// over 64 bits, and no interrupt is raised.
pub open spec fn programming() -> ControlChange {
    ControlChange {
        psize: Some(3),
        pg: Some(true),
        start: None,
        ber: None,
        eopie: Some(false),
        wrperrie: Some(false),
        pgserrie: Some(false),
        strberrie: Some(false),
        incerrie: Some(false),
        operrie: Some(false),
    }
}

impl WriteWord {
    /// The programming of `words` at `start`, at its beginning.
    pub open spec fn at(start: u32, words: [u32; FLASH_WORD_WORDS]) -> WriteWord {
        WriteWord { start, words, stage: WriteStage::Configure }
    }
}

/// Sets out to program flash word `word_number` of `bank`.
pub fn write_word(bank: &Bank, word_number: usize, words: [u32; FLASH_WORD_WORDS]) -> (write: Result<
    WriteWord,
    UpdateError,
>)
    requires
        bank.wf(),
        bank.reaches(word_number as int),
    ensures
        write == match bank.spec_locate(word_number as int) {
            Ok(start) => Ok(WriteWord::at(start, words)),
            Err(error) => Err(error),
        },
        write matches Ok(procedure) ==> procedure.wf(),
{
    match bank.locate(word_number) {
        Ok(start) => Ok(WriteWord { start, words, stage: WriteStage::Configure }),
        Err(error) => Err(error),
    }
}

impl Procedure for WriteWord {
    type Request = FlashRequest;

    type Reply = FlashReply;

    type Outcome = Result<(), UpdateError>;

    open spec fn wf(self) -> bool {
        &&& self.start + FLASH_WORD_BYTES <= u32::MAX
        &&& self.stage matches WriteStage::Store(index) ==> index < FLASH_WORD_WORDS
    }

    open spec fn asks(self) -> FlashRequest {
        match self.stage {
            WriteStage::Configure => FlashRequest::ModifyControl(programming()),
            WriteStage::Store(index) => FlashRequest::WriteWord {
                address: (self.start + 4 * index) as u32,
                word: self.words@[index as int],
            },
            WriteStage::Poll => FlashRequest::ReadStatus,
            WriteStage::Status => FlashRequest::ReadStatus,
        }
    }

    open spec fn accepts(self, reply: FlashReply) -> bool {
        self.asks().answered_by(reply)
    }

    open spec fn after(self, reply: FlashReply) -> Progress<WriteWord, Result<(), UpdateError>> {
        match self.stage {
            WriteStage::Configure => Progress::Continue(
                WriteWord { stage: WriteStage::Store(0), ..self },
            ),
            WriteStage::Store(index) => Progress::Continue(
                WriteWord {
                    stage: if index + 1 < FLASH_WORD_WORDS {
                        WriteStage::Store((index + 1) as usize)
                    } else {
                        WriteStage::Poll
                    },
                    ..self
                },
            ),
            WriteStage::Poll => if reply->Status_0.qw {
                Progress::Continue(self)
            } else {
                Progress::Continue(WriteWord { stage: WriteStage::Status, ..self })
            },
            WriteStage::Status => Progress::Finished(reported(reply->Status_0)),
        }
    }

    fn request(&self) -> (request: FlashRequest) {
        match self.stage {
            WriteStage::Configure => FlashRequest::ModifyControl(
                ControlChange {
                    psize: Some(0b11),
                    pg: Some(true),
                    start: None,
                    ber: None,
                    eopie: Some(false),
                    wrperrie: Some(false),
                    pgserrie: Some(false),
                    strberrie: Some(false),
                    incerrie: Some(false),
                    operrie: Some(false),
                },
            ),
            WriteStage::Store(index) => FlashRequest::WriteWord {
                address: self.start + 4 * index as u32,
                word: self.words[index],
            },
            WriteStage::Poll => FlashRequest::ReadStatus,
            WriteStage::Status => FlashRequest::ReadStatus,
        }
    }

    fn resume(self, reply: FlashReply) -> (progress: Progress<WriteWord, Result<(), UpdateError>>) {
        let mut next = self;
        match (self.stage, reply) {
            (WriteStage::Configure, _) => {
                next.stage = WriteStage::Store(0);
            },
            (WriteStage::Store(index), _) => {
                if index + 1 < FLASH_WORD_WORDS {
                    next.stage = WriteStage::Store(index + 1);
                } else {
                    next.stage = WriteStage::Poll;
                }
            },
            (WriteStage::Poll, FlashReply::Status(status)) => {
                if !status.qw {
                    next.stage = WriteStage::Status;
                }
            },
            (WriteStage::Status, FlashReply::Status(status)) => {
                return Progress::Finished(bank2_status(status));
            },
            _ => {},
        }
        Progress::Continue(next)
    }
}

/// What is asked for in order to program a flash word, all in all, where the
/// write queue was looked at `polls` times.
pub open spec fn write_script(
    start: u32,
    words: [u32; FLASH_WORD_WORDS],
    polls: nat,
) -> Seq<FlashRequest> {
    seq![FlashRequest::ModifyControl(programming())] + Seq::new(
        FLASH_WORD_WORDS as nat,
        |i: int| FlashRequest::WriteWord { address: (start + 4 * i) as u32, word: words@[i] },
    ) + Seq::new(polls, |i: int| FlashRequest::ReadStatus) + seq![FlashRequest::ReadStatus]
}

proof fn lemma_poll(write: WriteWord, replies: Seq<FlashReply>, at: int) -> (polls: nat)
    requires
        0 <= at,
        write.stage is Poll,
        run(write, replies, at) is Finished,
        answered(write, replies, at),
    ensures
        polls > 0,
        at + polls < replies.len(),
        requests(write, replies, at) == Seq::new(polls, |i: int| FlashRequest::ReadStatus) + seq![
            FlashRequest::ReadStatus,
        ],
        forall|i: int|
            at <= i < at + polls ==> ((#[trigger] replies[i]) matches FlashReply::Status(status)
                && (status.qw <==> i < at + polls - 1)),
        replies[at + polls] matches FlashReply::Status(status) && run(write, replies, at)
            == Progress::<WriteWord, Result<(), UpdateError>>::Finished(reported(status)),
    decreases replies.len() - at,
{
    reveal_with_fuel(run, 3);
    reveal_with_fuel(requests, 3);
    reveal_with_fuel(answered, 3);
    if replies[at]->Status_0.qw {
        let rest = lemma_poll(write, replies, at + 1);
        rest + 1
    } else {
        1
    }
}

proof fn lemma_store(write: WriteWord, replies: Seq<FlashReply>, at: int, index: int) -> (polls: nat)
    requires
        0 <= at,
        write.wf(),
        write.stage matches WriteStage::Store(i) && i == index,
        run(write, replies, at) is Finished,
        answered(write, replies, at),
    ensures
        polls > 0,
        at + FLASH_WORD_WORDS - index + polls < replies.len(),
        requests(write, replies, at) == Seq::new(
            (FLASH_WORD_WORDS - index) as nat,
            |i: int|
                FlashRequest::WriteWord {
                    address: (write.start + 4 * (index + i)) as u32,
                    word: write.words@[index + i],
                },
        ) + Seq::new(polls, |i: int| FlashRequest::ReadStatus) + seq![FlashRequest::ReadStatus],
        forall|i: int|
            at + FLASH_WORD_WORDS - index <= i < at + FLASH_WORD_WORDS - index + polls ==> ((
            #[trigger] replies[i]) matches FlashReply::Status(status) && (status.qw <==> i < at
                + FLASH_WORD_WORDS - index + polls - 1)),
        replies[at + FLASH_WORD_WORDS - index + polls] matches FlashReply::Status(status) && run(
            write,
            replies,
            at,
        ) == Progress::<WriteWord, Result<(), UpdateError>>::Finished(reported(status)),
    decreases FLASH_WORD_WORDS - index,
{
    let next = write.after(replies[at])->Continue_0;
    if index + 1 < FLASH_WORD_WORDS {
        lemma_store(next, replies, at + 1, index + 1)
    } else {
        lemma_poll(next, replies, at + 1)
    }
}

/// A flash word is programmed by switching the bank to programming, storing its
/// words in order, and waiting for the write queue to be empty. It comes out as
/// the status that is read thereafter says.
pub proof fn law_word_is_stored_whole(
    start: u32,
    words: [u32; FLASH_WORD_WORDS],
    replies: Seq<FlashReply>,
) -> (polls: nat)
    requires
        WriteWord::at(start, words).wf(),
        run(WriteWord::at(start, words), replies, 0) is Finished,
        answered(WriteWord::at(start, words), replies, 0),
    ensures
        polls > 0,
        FLASH_WORD_WORDS + 1 + polls < replies.len(),
        requests(WriteWord::at(start, words), replies, 0) == write_script(start, words, polls),
        forall|i: int|
            FLASH_WORD_WORDS + 1 <= i < FLASH_WORD_WORDS + 1 + polls ==> ((
            #[trigger] replies[i]) matches FlashReply::Status(status) && (status.qw <==> i
                < FLASH_WORD_WORDS + polls)),
        replies[FLASH_WORD_WORDS + polls + 1] matches FlashReply::Status(status) && run(
            WriteWord::at(start, words),
            replies,
            0,
        ) == Progress::<WriteWord, Result<(), UpdateError>>::Finished(reported(status)),
{
    let write = WriteWord::at(start, words);
    let next = write.after(replies[0])->Continue_0;
    lemma_store(next, replies, 1, 0)
}

} // verus!
