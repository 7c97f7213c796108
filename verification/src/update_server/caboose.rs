//! Reading a value out of the caboose of the image in the alternate bank.
//!
//! The image header, at a fixed place behind the vector table, says how long
//! the image is. The last word of the image is the size of the caboose, which
//! ends with that word and begins with a magic number. What lies between the
//! two is the caboose proper, a series of tagged chunks that a caboose reader
//! makes sense of.
use crate::api::{ClientError, RequestError};
use crate::procedure::{answered, requests, run, Procedure, Progress};
use crate::update_server::bank::Bank;
use vstd::prelude::*;

verus! {

/// How far behind the beginning of an image its header lies: at the end of the
/// vector table, whose length the hardware gives.
pub const HEADER_OFFSET: u32 = 0x298;

/// How many bytes are handed to the client at a time.
pub const BUF_SIZE: usize = 16;

/// The fields of an image header that are looked at.
#[derive(Clone, Copy, Debug, PartialEq, Eq)]
pub struct ImageHeader {
    /// The number that marks a header as one.
    pub magic: u32,
    /// The length of the image, in bytes.
    pub total_image_len: u32,
}

/// The numbers by which the parts of an image are recognised.
#[derive(Clone, Copy, Debug, PartialEq, Eq)]
pub struct ImageFormat {
    /// That of the header.
    pub header_magic: u32,
    /// That of the caboose.
    pub caboose_magic: u32,
}

/// Why a caboose value cannot be read.
#[derive(Clone, Copy, Debug, PartialEq, Eq)]
pub enum CabooseError {
    /// There is no image header.
    NoImageHeader,
    /// There is no caboose.
    MissingCaboose,
    /// The caboose reader found no such value: its error, by number.
    Reader(u32),
}

/// What the reading of a caboose value can ask for.
#[derive(Clone, Copy, Debug, PartialEq, Eq)]
pub enum CabooseRequest {
    /// Read the image header at an address.
    ReadHeader {
        /// Where.
        address: u32,
    },
    /// Read the word at an address.
    ReadWord {
        /// Where.
        address: u32,
    },
    /// Let the caboose reader look for a value in a piece of memory.
    Find {
        /// The tag of the value.
        name: [u8; 4],
        /// Where the piece begins.
        start: u32,
        /// How long it is.
        len: u32,
    },
    /// Hand these bytes of the value to the client.
    WriteRange {
        /// The index of the first.
        pos: usize,
        /// One past the index of the last.
        end: usize,
    },
}

/// What it is answered.
#[derive(Debug, PartialEq, Eq)]
pub enum CabooseReply {
    /// The header that was read.
    Header(ImageHeader),
    /// The word that was read.
    Word(u32),
    /// The length of the value that was found, or the number of the error.
    Found(Result<usize, u32>),
    /// Whether the client could be given the bytes.
    Written(bool),
}

/// What is outstanding.
#[derive(Clone, Copy, Debug, PartialEq, Eq)]
pub enum CabooseStage {
    /// Reading the image header.
    Header,
    /// Reading the size of the caboose.
    Size {
        /// One past the last address of the image.
        image_end: u32,
    },
    /// Reading the magic number of the caboose.
    Magic {
        /// One past the last address of the image.
        image_end: u32,
        /// The first address of the caboose.
        caboose_start: u32,
    },
    /// Looking for the value.
    Find {
        /// The first address of the caboose proper.
        start: u32,
        /// One past its last address.
        end: u32,
    },
    /// Handing the value over.
    Copy {
        /// The length of the value.
        len: usize,
        /// How many bytes have been handed over.
        pos: usize,
    },
}

/// The reading of a caboose value.
#[derive(Clone, Copy, Debug, PartialEq, Eq)]
pub struct ReadCaboose {
    /// Where the image is.
    pub bank: Bank,
    /// What it is recognised by.
    pub format: ImageFormat,
    /// The tag of the value.
    pub name: [u8; 4],
    /// How many bytes the client has room for.
    pub lease_len: usize,
    /// What is outstanding.
    pub stage: CabooseStage,
}

/// `a - b`, or zero if `b` is more than `a`.
pub open spec fn monus(a: u32, b: u32) -> int {
    if a >= b {
        a - b
    } else {
        0
    }
}

/// The end of the next piece of a value of length `len` when `pos` bytes have
/// been handed over.
pub open spec fn piece_end(len: int, pos: int) -> int {
    if pos + BUF_SIZE <= len {
        pos + BUF_SIZE
    } else {
        len
    }
}

impl ReadCaboose {
    /// The reading of the value `name`, at its beginning.
    pub open spec fn spec_new(
        bank: Bank,
        format: ImageFormat,
        name: [u8; 4],
        lease_len: usize,
    ) -> ReadCaboose {
        ReadCaboose { bank, format, name, lease_len, stage: CabooseStage::Header }
    }

    /// The reading of the value `name`, at its beginning.
    pub fn new(bank: Bank, format: ImageFormat, name: [u8; 4], lease_len: usize) -> (reading:
        ReadCaboose)
        ensures
            reading == ReadCaboose::spec_new(bank, format, name, lease_len),
            reading == (ReadCaboose { bank, format, name, lease_len, stage: CabooseStage::Header }),
    {
        ReadCaboose { bank, format, name, lease_len, stage: CabooseStage::Header }
    }

    /// The reading in another stage.
    pub open spec fn at(self, stage: CabooseStage) -> Progress<
        ReadCaboose,
        Result<u32, RequestError<CabooseError>>,
    > {
        Progress::Continue(ReadCaboose { stage, ..self })
    }

    /// The reading over, with an error.
    pub open spec fn failed(error: CabooseError) -> Progress<
        ReadCaboose,
        Result<u32, RequestError<CabooseError>>,
    > {
        Progress::Finished(Err(RequestError::Runtime(error)))
    }

    /// The end that the header says the image has.
    pub open spec fn image_end(self, header: ImageHeader) -> int {
        self.bank.base + header.total_image_len
    }

    /// Where a value of length `len` stands once `pos` bytes have been handed
    /// over.
    pub open spec fn handed(self, len: usize, pos: int) -> Progress<
        ReadCaboose,
        Result<u32, RequestError<CabooseError>>,
    > {
        if pos < len {
            self.at(CabooseStage::Copy { len, pos: pos as usize })
        } else {
            Progress::Finished(Ok(len as u32))
        }
    }
}

impl Procedure for ReadCaboose {
    type Request = CabooseRequest;

    type Reply = CabooseReply;

    type Outcome = Result<u32, RequestError<CabooseError>>;

    open spec fn wf(self) -> bool {
        &&& self.bank.base + HEADER_OFFSET <= u32::MAX
        &&& match self.stage {
            CabooseStage::Header => true,
            CabooseStage::Size { image_end } => 4 <= image_end && self.bank.base <= image_end
                <= self.bank.end,
            CabooseStage::Magic { image_end, caboose_start } => {
                &&& 4 <= image_end <= self.bank.end
                &&& self.bank.base <= caboose_start <= image_end
                &&& caboose_start + 4 <= self.bank.end
            },
            CabooseStage::Find { start, end } => {
                &&& self.bank.base + 4 <= start <= self.bank.end
                &&& end + 4 <= self.bank.end
            },
            CabooseStage::Copy { len, pos } => pos < len && len <= self.lease_len && len
                <= u32::MAX,
        }
    }

    open spec fn asks(self) -> CabooseRequest {
        match self.stage {
            CabooseStage::Header => CabooseRequest::ReadHeader {
                address: (self.bank.base + HEADER_OFFSET) as u32,
            },
            CabooseStage::Size { image_end } => CabooseRequest::ReadWord {
                address: (image_end - 4) as u32,
            },
            CabooseStage::Magic { image_end: _, caboose_start } => CabooseRequest::ReadWord {
                address: caboose_start,
            },
            CabooseStage::Find { start, end } => CabooseRequest::Find {
                name: self.name,
                start,
                len: monus(end, start) as u32,
            },
            CabooseStage::Copy { len, pos } => CabooseRequest::WriteRange {
                pos,
                end: piece_end(len as int, pos as int) as usize,
            },
        }
    }

    /// Besides being of the right kind, a reply must not take the addresses
    /// that are computed from it out of the address space, and a value is no
    /// longer than a word can say.
    open spec fn accepts(self, reply: CabooseReply) -> bool {
        match self.stage {
            CabooseStage::Header => {
                &&& reply is Header
                &&& reply->Header_0.magic == self.format.header_magic ==> {
                    &&& self.image_end(reply->Header_0) <= u32::MAX
                    &&& self.image_end(reply->Header_0) <= self.bank.end ==> 4 <= self.image_end(
                        reply->Header_0,
                    )
                }
            },
            CabooseStage::Size { .. } => reply is Word,
            CabooseStage::Magic { .. } => reply is Word,
            CabooseStage::Find { .. } => {
                &&& reply is Found
                &&& reply->Found_0 matches Ok(len) ==> len <= u32::MAX
            },
            CabooseStage::Copy { .. } => reply is Written,
        }
    }

    open spec fn after(self, reply: CabooseReply) -> Progress<
        ReadCaboose,
        Result<u32, RequestError<CabooseError>>,
    > {
        match self.stage {
            CabooseStage::Header => {
                let header = reply->Header_0;
                if header.magic != self.format.header_magic {
                    ReadCaboose::failed(CabooseError::NoImageHeader)
                } else if self.image_end(header) > self.bank.end {
                    ReadCaboose::failed(CabooseError::MissingCaboose)
                } else {
                    self.at(CabooseStage::Size { image_end: self.image_end(header) as u32 })
                }
            },
            CabooseStage::Size { image_end } => {
                let caboose_start = monus(image_end, reply->Word_0);
                if caboose_start < self.bank.base || caboose_start + 4 > self.bank.end {
                    ReadCaboose::failed(CabooseError::MissingCaboose)
                } else {
                    self.at(
                        CabooseStage::Magic { image_end, caboose_start: caboose_start as u32 },
                    )
                }
            },
            CabooseStage::Magic { image_end, caboose_start } => if reply->Word_0
                == self.format.caboose_magic {
                self.at(
                    CabooseStage::Find {
                        start: (caboose_start + 4) as u32,
                        end: (image_end - 4) as u32,
                    },
                )
            } else {
                ReadCaboose::failed(CabooseError::MissingCaboose)
            },
            CabooseStage::Find { .. } => match reply->Found_0 {
                Err(number) => ReadCaboose::failed(CabooseError::Reader(number)),
                Ok(len) => if len > self.lease_len {
                    Progress::Finished(Err(RequestError::Fail(ClientError::BadLease)))
                } else {
                    self.handed(len, 0)
                },
            },
            CabooseStage::Copy { len, pos } => if reply->Written_0 {
                self.handed(len, piece_end(len as int, pos as int))
            } else {
                Progress::Finished(Err(RequestError::Fail(ClientError::WentAway)))
            },
        }
    }

    fn request(&self) -> (request: CabooseRequest) {
        match self.stage {
            CabooseStage::Header => CabooseRequest::ReadHeader {
                address: self.bank.base + HEADER_OFFSET,
            },
            CabooseStage::Size { image_end } => CabooseRequest::ReadWord { address: image_end - 4 },
            CabooseStage::Magic { image_end: _, caboose_start } => CabooseRequest::ReadWord {
                address: caboose_start,
            },
            CabooseStage::Find { start, end } => CabooseRequest::Find {
                name: self.name,
                start,
                len: end.saturating_sub(start),
            },
            CabooseStage::Copy { len, pos } => {
                let end: usize = if len - pos > BUF_SIZE {
                    pos + BUF_SIZE
                } else {
                    len
                };
                CabooseRequest::WriteRange { pos, end }
            },
        }
    }

    fn resume(self, reply: CabooseReply) -> (progress: Progress<
        ReadCaboose,
        Result<u32, RequestError<CabooseError>>,
    >) {
        let mut next = self;
        match (self.stage, reply) {
            (CabooseStage::Header, CabooseReply::Header(header)) => {
                if header.magic != self.format.header_magic {
                    return Progress::Finished(
                        Err(RequestError::Runtime(CabooseError::NoImageHeader)),
                    );
                }
                let image_end: u32 = self.bank.base + header.total_image_len;
                if image_end > self.bank.end {
                    return Progress::Finished(
                        Err(RequestError::Runtime(CabooseError::MissingCaboose)),
                    );
                }
                next.stage = CabooseStage::Size { image_end };
            },
            (CabooseStage::Size { image_end }, CabooseReply::Word(caboose_size)) => {
                // Where there is no caboose the size reads as all ones, which
                // leads out of the bank. So does a size of less than a word at
                // the end of the bank: the magic number would run past it.
                let caboose_start: u32 = image_end.saturating_sub(caboose_size);
                if caboose_start < self.bank.base || self.bank.end - caboose_start < 4 {
                    return Progress::Finished(
                        Err(RequestError::Runtime(CabooseError::MissingCaboose)),
                    );
                }
                next.stage = CabooseStage::Magic { image_end, caboose_start };
            },
            (CabooseStage::Magic { image_end, caboose_start }, CabooseReply::Word(word)) => {
                if word != self.format.caboose_magic {
                    return Progress::Finished(
                        Err(RequestError::Runtime(CabooseError::MissingCaboose)),
                    );
                }
                next.stage = CabooseStage::Find { start: caboose_start + 4, end: image_end - 4 };
            },
            (CabooseStage::Find { .. }, CabooseReply::Found(Err(number))) => {
                return Progress::Finished(
                    Err(RequestError::Runtime(CabooseError::Reader(number))),
                );
            },
            (CabooseStage::Find { .. }, CabooseReply::Found(Ok(len))) => {
                if len > self.lease_len {
                    return Progress::Finished(Err(RequestError::Fail(ClientError::BadLease)));
                }
                if len == 0 {
                    return Progress::Finished(Ok(0));
                }
                next.stage = CabooseStage::Copy { len, pos: 0 };
            },
            (CabooseStage::Copy { len, pos }, CabooseReply::Written(written)) => {
                if !written {
                    return Progress::Finished(Err(RequestError::Fail(ClientError::WentAway)));
                }
                if len - pos <= BUF_SIZE {
                    return Progress::Finished(Ok(len as u32));
                }
                next.stage = CabooseStage::Copy { len, pos: pos + BUF_SIZE };
            },
            _ => {},
        }
        Progress::Continue(next)
    }
}

/// A value is looked for if and only if there is an image header, the image
/// ends in the bank, the first word of the caboose lies in it, and that word is
/// its magic number. It is looked for between that number and the size at the end.
pub proof fn law_value_is_looked_for_in_the_caboose(
    bank: Bank,
    format: ImageFormat,
    name: [u8; 4],
    lease_len: usize,
    replies: Seq<CabooseReply>,
)
    requires
        ReadCaboose::spec_new(bank, format, name, lease_len).wf(),
        answered(ReadCaboose::spec_new(bank, format, name, lease_len), replies, 0),
        replies.len() >= 4,
    ensures
        ({
            let asked = requests(ReadCaboose::spec_new(bank, format, name, lease_len), replies, 0);
            let header = replies[0]->Header_0;
            let image_end = bank.base + header.total_image_len;
            let caboose_start = monus(image_end as u32, replies[1]->Word_0);
            &&& asked.len() > 3 <==> {
                &&& header.magic == format.header_magic
                &&& image_end <= bank.end
                &&& caboose_start >= bank.base
                &&& caboose_start + 4 <= bank.end
                &&& replies[2] == CabooseReply::Word(format.caboose_magic)
            }
            &&& asked.len() > 3 ==> asked[3] == (CabooseRequest::Find {
                name,
                start: (caboose_start + 4) as u32,
                len: monus((image_end - 4) as u32, (caboose_start + 4) as u32) as u32,
            })
        }),
{
    reveal_with_fuel(requests, 5);
    reveal_with_fuel(answered, 5);
}

/// What a request reads lies in `bank`: a word with all its bytes, a piece of
/// memory with all that are in it, and a header with its beginning, in a bank
/// that is long enough to have one.
pub open spec fn reads_inside(bank: Bank, request: CabooseRequest) -> bool {
    match request {
        CabooseRequest::ReadHeader { address } => bank.base <= address && (bank.base
            + HEADER_OFFSET < bank.end ==> address < bank.end),
        CabooseRequest::ReadWord { address } => bank.base <= address && address + 4 <= bank.end,
        CabooseRequest::Find { name: _, start, len } => bank.base <= start && start + len
            <= bank.end,
        CabooseRequest::WriteRange { .. } => true,
    }
}

proof fn lemma_reads_behind_the_size(reading: ReadCaboose, replies: Seq<CabooseReply>, at: int)
    requires
        0 <= at,
        reading.wf(),
        !(reading.stage is Header) && !(reading.stage is Size),
        answered(reading, replies, at),
    ensures
        forall|i: int|
            0 <= i < requests(reading, replies, at).len() ==> reads_inside(
                reading.bank,
                #[trigger] requests(reading, replies, at)[i],
            ),
    decreases replies.len() - at,
{
    let asked = requests(reading, replies, at);
    if at < replies.len() {
        if let Progress::Continue(next) = reading.after(replies[at]) {
            lemma_reads_behind_the_size(next, replies, at + 1);
            let rest = requests(next, replies, at + 1);
            assert forall|i: int| 0 <= i < asked.len() implies reads_inside(
                reading.bank,
                #[trigger] asked[i],
            ) by {
                if i > 0 {
                    assert(asked[i] == rest[i - 1]);
                }
            }
        }
    }
}

/// All that is read lies in the bank, whatever the size of the caboose reads
/// as, if an image that lies in the bank has room for that size.
pub proof fn law_what_is_read_lies_in_the_bank(
    bank: Bank,
    format: ImageFormat,
    name: [u8; 4],
    lease_len: usize,
    replies: Seq<CabooseReply>,
)
    requires
        ReadCaboose::spec_new(bank, format, name, lease_len).wf(),
        answered(ReadCaboose::spec_new(bank, format, name, lease_len), replies, 0),
        ({
            let header = replies[0]->Header_0;
            replies.len() > 1 && header.magic == format.header_magic && bank.base
                + header.total_image_len <= bank.end ==> header.total_image_len >= 4
        }),
    ensures
        forall|i: int|
            0 <= i < requests(
                ReadCaboose::spec_new(bank, format, name, lease_len),
                replies,
                0,
            ).len() ==> reads_inside(
                bank,
                #[trigger] requests(
                    ReadCaboose::spec_new(bank, format, name, lease_len),
                    replies,
                    0,
                )[i],
            ),
{
    reveal_with_fuel(requests, 3);
    reveal_with_fuel(answered, 3);
    let reading = ReadCaboose::spec_new(bank, format, name, lease_len);
    let asked = requests(reading, replies, 0);
    if replies.len() > 1 {
        if let Progress::Continue(sized) = reading.after(replies[0]) {
            if let Progress::Continue(marked) = sized.after(replies[1]) {
                lemma_reads_behind_the_size(marked, replies, 2);
                let rest = requests(marked, replies, 2);
                assert forall|i: int| 2 <= i < asked.len() implies reads_inside(
                    bank,
                    #[trigger] asked[i],
                ) by {
                    assert(asked[i] == rest[i - 2]);
                }
            }
        }
    }
}

/// Where the size of the caboose reads as all ones, as it does where nothing
/// has been programmed, there is no caboose, if the bank does not begin at
/// address zero.
pub proof fn law_erased_size_means_no_caboose(reading: ReadCaboose)
    requires
        reading.wf(),
        reading.stage is Size,
        reading.bank.base > 0,
    ensures
        reading.after(CabooseReply::Word(0xFFFF_FFFF)) == ReadCaboose::failed(
            CabooseError::MissingCaboose,
        ),
{
}

/// The pieces in which what is left of a value is handed over.
pub open spec fn pieces(len: int, pos: int) -> Seq<CabooseRequest>
    decreases len - pos,
{
    if pos >= len {
        Seq::empty()
    } else {
        seq![CabooseRequest::WriteRange { pos: pos as usize, end: piece_end(len, pos) as usize }]
            + pieces(len, piece_end(len, pos))
    }
}

proof fn lemma_handing_over(reading: ReadCaboose, replies: Seq<CabooseReply>, at: int)
    requires
        0 <= at,
        reading.wf(),
        reading.stage is Copy,
        answered(reading, replies, at),
    ensures
        reading.stage matches CabooseStage::Copy { len, pos } && {
            &&& requests(reading, replies, at).is_prefix_of(pieces(len as int, pos as int))
            &&& run(reading, replies, at) matches Progress::Finished(outcome) ==> match outcome {
                Ok(sent) => sent == len && requests(reading, replies, at) == pieces(
                    len as int,
                    pos as int,
                ),
                Err(error) => error == RequestError::<CabooseError>::Fail(ClientError::WentAway),
            }
        },
    decreases replies.len() - at,
{
    if let CabooseStage::Copy { len, pos } = reading.stage {
        let all = pieces(len as int, pos as int);
        let end = piece_end(len as int, pos as int);
        let asked = requests(reading, replies, at);
        if at < replies.len() {
            assert(all == seq![reading.asks()] + pieces(len as int, end));
            if let Progress::Continue(next) = reading.after(replies[at]) {
                lemma_handing_over(next, replies, at + 1);
                let rest = requests(next, replies, at + 1);
                let left = pieces(len as int, end);
                assert(asked == seq![reading.asks()] + rest);
                assert(asked =~= all.take(asked.len() as int)) by {
                    assert(rest == left.take(rest.len() as int));
                    assert forall|i: int| 0 <= i < asked.len() implies asked[i] == all[i] by {
                        if i > 0 {
                            assert(rest[i - 1] == left[i - 1]);
                        }
                    }
                }
            } else {
                assert(asked == seq![reading.asks()]);
                assert(asked =~= all.take(1));
                if replies[at]->Written_0 {
                    assert(end == len);
                    assert(pieces(len as int, end) == Seq::<CabooseRequest>::empty());
                }
            }
        } else {
            assert(asked =~= all.take(0));
        }
    }
}

/// A value that was found, and that the client has room for, is handed over
/// from its beginning on in pieces, each as long as a piece may be but for the
/// last. The client is told its length if it could be given all of them, and
/// that it went away else.
pub proof fn law_value_is_handed_over_whole(
    reading: ReadCaboose,
    len: usize,
    replies: Seq<CabooseReply>,
)
    requires
        reading.wf(),
        reading.stage is Find,
        answered(reading, replies, 0),
        replies.len() > 0,
        replies[0] == CabooseReply::Found(Ok(len)),
        len <= reading.lease_len,
    ensures
        ({
            let handed = requests(reading, replies, 0).skip(1);
            &&& handed.is_prefix_of(pieces(len as int, 0))
            &&& run(reading, replies, 0) matches Progress::Finished(outcome) ==> match outcome {
                Ok(sent) => sent == len && handed == pieces(len as int, 0),
                Err(error) => error == RequestError::<CabooseError>::Fail(ClientError::WentAway),
            }
        }),
{
    let asked = requests(reading, replies, 0);
    if let Progress::Continue(next) = reading.after(replies[0]) {
        lemma_handing_over(next, replies, 1);
        assert(asked.skip(1) == requests(next, replies, 1));
    } else {
        assert(asked.skip(1) == Seq::<CabooseRequest>::empty());
        assert(pieces(len as int, 0) == Seq::<CabooseRequest>::empty());
    }
}

/// The pieces of a value are its bytes in order: each begins where the one
/// before it ends, the first at the beginning and the last at the end, and none
/// is empty or longer than a piece may be.
pub proof fn law_pieces_make_up_the_value(len: usize, pos: usize)
    requires
        pos < len,
    ensures
        ({
            let all = pieces(len as int, pos as int);
            &&& all.len() > 0
            &&& all[0] matches CabooseRequest::WriteRange { pos: first, end: _ } && first == pos
            &&& all.last() matches CabooseRequest::WriteRange { pos: _, end } && end == len
            &&& forall|i: int|
                0 <= i < all.len() ==> ((#[trigger] all[i]) matches CabooseRequest::WriteRange {
                    pos: first,
                    end,
                } && first < end <= first + BUF_SIZE)
            &&& forall|i: int, j: int|
                0 <= i && j == i + 1 && j < all.len() ==> (#[trigger] all[i])->end == (
                #[trigger] all[j])->WriteRange_pos
        }),
    decreases len - pos,
{
    let all = pieces(len as int, pos as int);
    let end = piece_end(len as int, pos as int) as usize;
    let rest = pieces(len as int, end as int);
    if end < len {
        law_pieces_make_up_the_value(len, end);
        assert forall|i: int| 0 <= i < all.len() implies ((
        #[trigger] all[i]) matches CabooseRequest::WriteRange { pos: first, end } && first < end
            <= first + BUF_SIZE) by {
            if i > 0 {
                assert(all[i] == rest[i - 1]);
            }
        }
        assert forall|i: int, j: int| 0 <= i && j == i + 1 && j < all.len() implies (
        #[trigger] all[i])->end == (#[trigger] all[j])->WriteRange_pos by {
            assert(all[j] == rest[j - 1]);
            if i > 0 {
                assert(all[i] == rest[i - 1]);
            }
        }
    } else {
        assert(rest == Seq::<CabooseRequest>::empty());
    }
}

proof fn lemma_handing_over_ends(reading: ReadCaboose, replies: Seq<CabooseReply>, at: int)
    requires
        0 <= at,
        reading.wf(),
        reading.stage matches CabooseStage::Copy { len, pos } && replies.len() - at >= len - pos,
        answered(reading, replies, at),
    ensures
        run(reading, replies, at) is Finished,
    decreases replies.len() - at,
{
    if let Progress::Continue(next) = reading.after(replies[at]) {
        lemma_handing_over_ends(next, replies, at + 1);
    }
}

/// The reading of a value comes to an end, after at most four replies and one
/// for each byte that the client has room for.
pub proof fn law_reading_comes_to_an_end(
    bank: Bank,
    format: ImageFormat,
    name: [u8; 4],
    lease_len: usize,
    replies: Seq<CabooseReply>,
)
    requires
        ReadCaboose::spec_new(bank, format, name, lease_len).wf(),
        answered(ReadCaboose::spec_new(bank, format, name, lease_len), replies, 0),
        replies.len() >= 4 + lease_len,
    ensures
        run(ReadCaboose::spec_new(bank, format, name, lease_len), replies, 0) is Finished,
{
    reveal_with_fuel(run, 5);
    reveal_with_fuel(answered, 5);
    let reading = ReadCaboose::spec_new(bank, format, name, lease_len);
    if let Progress::Continue(sized) = reading.after(replies[0]) {
        if let Progress::Continue(marked) = sized.after(replies[1]) {
            if let Progress::Continue(found) = marked.after(replies[2]) {
                if let Progress::Continue(copying) = found.after(replies[3]) {
                    lemma_handing_over_ends(copying, replies, 4);
                }
            }
        }
    }
}

proof fn lemma_pieces_of_sixteen(reading: ReadCaboose, replies: Seq<CabooseReply>, at: int, k: int)
    requires
        0 <= at,
        0 <= k,
        reading.wf(),
        reading.stage matches CabooseStage::Copy { len, pos } && pos == 16 * k,
        answered(reading, replies, at),
    ensures
        ({
            let len = reading.stage->len;
            let asked = requests(reading, replies, at);
            let last = at + asked.len() - 1;
            &&& asked.len() <= replies.len() - at || asked.len() == 0
            &&& forall|j: int|
                0 <= j < asked.len() ==> {
                    &&& 16 * (k + j) < len
                    &&& #[trigger] asked[j] == (CabooseRequest::WriteRange {
                        pos: (16 * (k + j)) as usize,
                        end: (if 16 * (k + j) + 16 <= len {
                            16 * (k + j) + 16
                        } else {
                            len as int
                        }) as usize,
                    })
                }
            &&& forall|i: int|
                at <= i < last ==> #[trigger] replies[i] == CabooseReply::Written(true)
            &&& match run(reading, replies, at) {
                Progress::Continue(_) => {
                    &&& at <= replies.len() ==> asked.len() == replies.len() - at
                    &&& asked.len() > 0 ==> replies[last] == CabooseReply::Written(true)
                    &&& 16 * (k + asked.len()) < len
                },
                Progress::Finished(Ok(sent)) => {
                    &&& asked.len() > 0
                    &&& sent == len
                    &&& replies[last] == CabooseReply::Written(true)
                    &&& 16 * (k + asked.len()) >= len
                },
                Progress::Finished(Err(error)) => {
                    &&& asked.len() > 0
                    &&& error == RequestError::<CabooseError>::Fail(ClientError::WentAway)
                    &&& replies[last] == CabooseReply::Written(false)
                },
            }
        }),
    decreases replies.len() - at,
{
    if at < replies.len() {
        let asked = requests(reading, replies, at);
        if let Progress::Continue(next) = reading.after(replies[at]) {
            lemma_pieces_of_sixteen(next, replies, at + 1, k + 1);
            let rest = requests(next, replies, at + 1);
            assert(asked == seq![reading.asks()] + rest);
            assert forall|j: int| 0 <= j < asked.len() implies {
                &&& 16 * (k + j) < reading.stage->len
                &&& #[trigger] asked[j] == (CabooseRequest::WriteRange {
                    pos: (16 * (k + j)) as usize,
                    end: (if 16 * (k + j) + 16 <= reading.stage->len {
                        16 * (k + j) + 16
                    } else {
                        reading.stage->len as int
                    }) as usize,
                })
            } by {
                if j > 0 {
                    assert(asked[j] == rest[j - 1]);
                }
            }
        } else {
            assert(asked =~= seq![reading.asks()]);
        }
    }
}

/// Reading a value goes by the image alone. The header is read at its fixed place,
/// then the size of the caboose in the last word of the image, then the first
/// word of the caboose, which begins that size before the end of the image. What
/// is between that word and the size is looked through. Each step is taken if
/// and only if the one before it found what it should, and each way in which it
/// can fail has its error.
pub proof fn law_image_leads_to_the_value(
    bank: Bank,
    format: ImageFormat,
    name: [u8; 4],
    lease_len: usize,
    replies: Seq<CabooseReply>,
)
    requires
        bank.base + 0x298 <= u32::MAX,
        answered(ReadCaboose::spec_new(bank, format, name, lease_len), replies, 0),
        replies.len() > 0,
    ensures
        ({
            let reading = ReadCaboose::spec_new(bank, format, name, lease_len);
            let asked = requests(reading, replies, 0);
            let ended = run(reading, replies, 0);
            let header = replies[0]->Header_0;
            let end = bank.base + header.total_image_len;
            let size = replies[1]->Word_0;
            let start = if size <= end {
                end - size
            } else {
                0
            };
            let found = ReadCaboose {
                bank,
                format,
                name,
                lease_len,
                stage: CabooseStage::Find { start: (start + 4) as u32, end: (end - 4) as u32 },
            };
            let missing = Progress::<ReadCaboose, Result<u32, RequestError<CabooseError>>>::Finished(
                Err(RequestError::Runtime(CabooseError::MissingCaboose)),
            );
            &&& asked[0] == (CabooseRequest::ReadHeader { address: (bank.base + 0x298) as u32 })
            &&& if header.magic != format.header_magic {
                &&& asked.len() == 1
                &&& ended == Progress::<
                    ReadCaboose,
                    Result<u32, RequestError<CabooseError>>,
                >::Finished(Err(RequestError::Runtime(CabooseError::NoImageHeader)))
            } else if end > bank.end {
                asked.len() == 1 && ended == missing
            } else if replies.len() == 1 {
                asked.len() == 1 && ended is Continue
            } else {
                &&& asked[1] == (CabooseRequest::ReadWord { address: (end - 4) as u32 })
                &&& if start < bank.base || start + 4 > bank.end {
                    asked.len() == 2 && ended == missing
                } else if replies.len() == 2 {
                    asked.len() == 2 && ended is Continue
                } else {
                    &&& asked[2] == (CabooseRequest::ReadWord { address: start as u32 })
                    &&& if replies[2]->Word_0 != format.caboose_magic {
                        asked.len() == 3 && ended == missing
                    } else if replies.len() == 3 {
                        asked.len() == 3 && ended is Continue
                    } else {
                        &&& asked[3] == (CabooseRequest::Find {
                            name,
                            start: (start + 4) as u32,
                            len: (if start + 8 <= end {
                                end - start - 8
                            } else {
                                0
                            }) as u32,
                        })
                        &&& asked.skip(3) == requests(found, replies, 3)
                        &&& ended == run(found, replies, 3)
                    }
                }
            }
        }),
{
    reveal_with_fuel(run, 5);
    reveal_with_fuel(requests, 5);
    reveal_with_fuel(answered, 5);
    let reading = ReadCaboose::spec_new(bank, format, name, lease_len);
    if let Progress::Continue(sized) = reading.after(replies[0]) {
        if let Progress::Continue(marked) = sized.after(replies[1]) {
            if let Progress::Continue(found) = marked.after(replies[2]) {
                if replies.len() > 3 {
                    assert(requests(reading, replies, 0).skip(3) =~= requests(found, replies, 3));
                }
            }
        }
    }
}

/// What was found is handed over sixteen bytes at a time, the `k`-th piece from
/// byte `16 * k` on, until the end or until the client is gone. The client is
/// told the length if it was given all. It is told the error of the reader where
/// nothing was found, and that it has lent too little where it has.
pub proof fn law_value_goes_out_in_pieces_of_sixteen(
    reading: ReadCaboose,
    replies: Seq<CabooseReply>,
    at: int,
)
    requires
        reading.wf(),
        reading.stage is Find,
        answered(reading, replies, at),
        0 <= at < replies.len(),
    ensures
        ({
            let asked = requests(reading, replies, at);
            let ended = run(reading, replies, at);
            let last = asked.len() - 1;
            match replies[at]->Found_0 {
                Err(number) => asked.len() == 1 && ended == Progress::<
                    ReadCaboose,
                    Result<u32, RequestError<CabooseError>>,
                >::Finished(Err(RequestError::Runtime(CabooseError::Reader(number)))),
                Ok(len) => if len > reading.lease_len {
                    &&& asked.len() == 1
                    &&& ended == Progress::<
                        ReadCaboose,
                        Result<u32, RequestError<CabooseError>>,
                    >::Finished(Err(RequestError::Fail(ClientError::BadLease)))
                } else {
                    &&& forall|j: int|
                        0 <= j < last ==> {
                            &&& 16 * j < len
                            &&& #[trigger] asked[j + 1] == (CabooseRequest::WriteRange {
                                pos: (16 * j) as usize,
                                end: (if 16 * j + 16 <= len {
                                    16 * j + 16
                                } else {
                                    len as int
                                }) as usize,
                            })
                        }
                    &&& forall|i: int|
                        at + 1 <= i < at + last ==> #[trigger] replies[i] == CabooseReply::Written(
                            true,
                        )
                    &&& match ended {
                        Progress::Continue(_) => asked.len() == replies.len() - at && 16 * last < len && (
                        last > 0 ==> replies[at + last] == CabooseReply::Written(true)),
                        Progress::Finished(Ok(sent)) => sent == len && 16 * last >= len && (last > 0
                            ==> replies[at + last] == CabooseReply::Written(true)),
                        Progress::Finished(Err(error)) => {
                            &&& last > 0
                            &&& replies[at + last] == CabooseReply::Written(false)
                            &&& error == RequestError::<CabooseError>::Fail(ClientError::WentAway)
                        },
                    }
                },
            }
        }),
{
    let asked = requests(reading, replies, at);
    if let Progress::Continue(next) = reading.after(replies[at]) {
        lemma_pieces_of_sixteen(next, replies, at + 1, 0);
        let rest = requests(next, replies, at + 1);
        assert(asked == seq![reading.asks()] + rest);
        assert forall|j: int| 0 <= j < asked.len() - 1 implies #[trigger] asked[j + 1]
            == rest[j] by {}
    } else {
        assert(asked =~= seq![reading.asks()]);
    }
}

/// What is read, found or handed over is accepted as a reply, whatever it is, but
/// for a header that puts the image outside of the address space and a value too
/// long for its length to be told.
pub proof fn law_what_was_read_is_accepted(reading: ReadCaboose, reply: CabooseReply)
    requires
        reading.wf(),
        reading.bank.base >= 4,
    ensures
        reading.accepts(reply) <==> match reading.asks() {
            CabooseRequest::ReadHeader { .. } => reply matches CabooseReply::Header(header) && (
            header.magic == reading.format.header_magic ==> reading.bank.base
                + header.total_image_len <= u32::MAX),
            CabooseRequest::ReadWord { .. } => reply is Word,
            CabooseRequest::Find { .. } => reply matches CabooseReply::Found(found) && (
            found matches Ok(len) ==> len <= u32::MAX),
            CabooseRequest::WriteRange { .. } => reply is Written,
        },
{
}

} // verus!
