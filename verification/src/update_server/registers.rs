//! The flash controller as the update server sees it: the registers that it
//! reads and changes, by field.
use vstd::prelude::*;

verus! {

/// The fields of the option status register that are looked at.
#[derive(Clone, Copy, Debug, PartialEq, Eq)]
pub struct OptionStatus {
    /// The banks are to be swapped at the next boot.
    pub swap_bank_opt: bool,
    /// A change of the option bytes is going on.
    pub opt_busy: bool,
}

/// The fields of the status register of bank 2 that are looked at.
#[derive(Clone, Copy, Debug, PartialEq, Eq)]
pub struct BankStatus {
    /// Writes wait in the queue.
    pub qw: bool,
    /// The operation has come to its end.
    pub eop: bool,
    /// An ECC double detection error.
    pub dbeccerr: bool,
    /// An ECC single correction error.
    pub sneccerr1: bool,
    /// A secure error.
    pub rdserr: bool,
    /// A read protection error.
    pub rdperr: bool,
    /// A write or erase error.
    pub operr: bool,
    /// An inconsistency error.
    pub incerr: bool,
    /// A strobe error.
    pub strberr: bool,
    /// A programming sequence error.
    pub pgserr: bool,
    /// A write protection error.
    pub wrperr: bool,
}

/// A change of the control register of bank 2: the fields that are given are
/// set to the value given, the others keep the value that they have.
#[derive(Clone, Copy, Debug, PartialEq, Eq)]
pub struct ControlChange {
    /// Parallelism of the write cycle.
    pub psize: Option<u8>,
    /// Programming enable.
    pub pg: Option<bool>,
    /// Start of an erase.
    pub start: Option<bool>,
    /// Bank erase request.
    pub ber: Option<bool>,
    /// End of operation interrupt enable.
    pub eopie: Option<bool>,
    /// Write protection error interrupt enable.
    pub wrperrie: Option<bool>,
    /// Programming sequence error interrupt enable.
    pub pgserrie: Option<bool>,
    /// Strobe error interrupt enable.
    pub strberrie: Option<bool>,
    /// Inconsistency error interrupt enable.
    pub incerrie: Option<bool>,
    /// Write or erase error interrupt enable.
    pub operrie: Option<bool>,
}

/// What the server can ask of the flash controller, or, for the two requests
/// on the interrupt, of the kernel.
#[derive(Clone, Copy, Debug, PartialEq, Eq)]
pub enum FlashRequest {
    /// Read the lock bit of the control register of bank 2.
    ReadLock,
    /// Write the key register of bank 2.
    WriteKey(u32),
    /// Write the option key register.
    WriteOptionKey(u32),
    /// Read the option status register.
    ReadOptionStatus,
    /// Set the bank swap option, as programmed, to this value.
    ProgramSwapBank(bool),
    /// Start the change of the option bytes.
    StartOptionChange,
    /// Change the control register of bank 2.
    ModifyControl(ControlChange),
    /// Read the status register of bank 2.
    ReadStatus,
    /// Store a word at an address.
    WriteWord {
        /// Where.
        address: u32,
        /// What.
        word: u32,
    },
    /// Enable the flash interrupt.
    EnableInterrupt,
    /// Wait for the notification that the flash interrupt posts.
    AwaitInterrupt,
}

/// What the server is answered.
#[derive(Clone, Copy, Debug, PartialEq, Eq)]
pub enum FlashReply {
    /// It has been done.
    Done,
    /// The lock bit that was read.
    Locked(bool),
    /// The option status that was read.
    Options(OptionStatus),
    /// The status of bank 2 that was read.
    Status(BankStatus),
}

impl FlashRequest {
    /// Whether `reply` is of the kind that this request is answered with.
    pub open spec fn answered_by(self, reply: FlashReply) -> bool {
        match self {
            FlashRequest::ReadLock => reply is Locked,
            FlashRequest::ReadOptionStatus => reply is Options,
            FlashRequest::ReadStatus => reply is Status,
            _ => reply is Done,
        }
    }
}

} // verus!
