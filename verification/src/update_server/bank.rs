//! The part of the address space that the alternate bank takes up.
use crate::update_server::types::UpdateError;
use vstd::prelude::*;

verus! {

/// The length of a flash word, the unit in which the flash is programmed, in
/// bytes: 256 bits (RM0433 Rev 7, section 4.3.9).
pub const FLASH_WORD_BYTES: usize = 32;

/// The length of a flash word in words of the processor.
pub const FLASH_WORD_WORDS: usize = 8;

/// The addresses of bank 2, from `base` up to but not including `end`.
#[derive(Clone, Copy, Debug, PartialEq, Eq)]
pub struct Bank {
    /// The first address.
    pub base: u32,
    /// One past the last address.
    pub end: u32,
}

impl Bank {
    /// The bank does not end before it begins.
    pub open spec fn wf(self) -> bool {
        self.base <= self.end
    }

    /// How many whole flash words there are in the bank.
    pub open spec fn word_limit(self) -> int {
        (self.end - self.base) / FLASH_WORD_BYTES as int
    }

    /// Where flash word `word_number` begins.
    pub open spec fn word_address(self, word_number: int) -> int {
        self.base + word_number * FLASH_WORD_BYTES
    }

    /// Flash word `word_number` can be asked about: it is no further than just
    /// behind the last one, and its end is an address.
    pub open spec fn reaches(self, word_number: int) -> bool {
        &&& 0 <= word_number <= self.word_limit()
        &&& self.word_address(word_number) + FLASH_WORD_BYTES <= u32::MAX
    }

    /// Where flash word `word_number` begins, if it lies in the bank.
    pub open spec fn spec_locate(self, word_number: int) -> Result<u32, UpdateError> {
        if word_number < self.word_limit() {
            Ok(self.word_address(word_number) as u32)
        } else {
            Err(UpdateError::BadLength)
        }
    }

    /// How many whole flash words there are in the bank.
    pub fn words(&self) -> (words: usize)
        requires
            self.wf(),
        ensures
            words == self.word_limit(),
    {
        (self.end - self.base) as usize / FLASH_WORD_BYTES
    }

    /// Finds out where flash word `word_number` begins.
    pub fn locate(&self, word_number: usize) -> (start: Result<u32, UpdateError>)
        requires
            self.wf(),
            self.reaches(word_number as int),
        ensures
            start == self.spec_locate(word_number as int),
    {
        let start: u32 = self.base + word_number as u32 * FLASH_WORD_BYTES as u32;
        if start + FLASH_WORD_BYTES as u32 > self.end {
            return Err(UpdateError::BadLength);
        }
        Ok(start)
    }
}

/// A flash word is found if and only if all of it lies in the bank.
pub proof fn law_located_words_lie_in_the_bank(bank: Bank, word_number: int)
    requires
        bank.wf(),
        0 <= word_number,
    ensures
        bank.spec_locate(word_number) is Ok <==> bank.word_address(word_number) + FLASH_WORD_BYTES
            <= bank.end,
        bank.spec_locate(word_number) matches Ok(start) ==> {
            &&& start == bank.word_address(word_number)
            &&& bank.base <= start
            &&& start + FLASH_WORD_BYTES <= bank.end
        },
{
}

} // verus!
