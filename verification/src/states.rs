//! The replicated value and its storage layout.

use vstd::prelude::*;
use crate::codec::{le_bytes, le_value, lemma_le_bytes_len, lemma_le_bytes_of_value, lemma_le_limits,
    lemma_le_value_of_bytes, read_u64, write_u64};
use crate::error::ProgramError;

verus! {

/// The replicated counter.
#[derive(Clone, Copy, Debug, PartialEq, Eq, Structural)]
pub struct Counter {
    pub count: u64,
}

impl Counter {
    /// The number of bytes that a stored counter takes.
    pub const USIZE: usize = 8;

    /// The stored form of the counter: its count in eight little-endian
    /// bytes.
    pub open spec fn encoding(self) -> Seq<u8> {
        le_bytes(self.count as nat, 8)
    }

    /// The counter that `bytes` store, if they store one: exactly eight
    /// bytes do.
    pub open spec fn decoding(bytes: Seq<u8>) -> Option<Counter> {
        if bytes.len() == 8 {
            Some(Counter { count: le_value(bytes) as u64 })
        } else {
            None
        }
    }

    /// Decodes a counter from storage that holds it and nothing else.
    pub fn try_from_slice(bytes: &[u8]) -> (decoded: Result<Counter, ProgramError>)
        ensures
            decoded == match Counter::decoding(bytes@) {
                Some(counter) => Ok::<Counter, ProgramError>(counter),
                None => Err(ProgramError::BorshIoError),
            },
    {
        match read_u64(bytes) {
            Ok(count) => Ok(Counter { count }),
            Err(_) => Err(ProgramError::BorshIoError),
        }
    }

    /// Writes the counter over the first eight bytes of `storage` and leaves
    /// the rest as it is. Storage of fewer than eight bytes is refused and
    /// not touched.
    pub fn serialize(&self, storage: &mut Vec<u8>) -> (written: Result<(), ProgramError>)
        ensures
            old(storage)@.len() >= 8 ==> written is Ok && final(storage)@ == self.encoding()
                + old(storage)@.skip(8),
            old(storage)@.len() < 8 ==> written == Err::<(), ProgramError>(
                ProgramError::BorshIoError,
            ) && final(storage)@ == old(storage)@,
    {
        if storage.len() < Counter::USIZE {
            return Err(ProgramError::BorshIoError);
        }
        match write_u64(self.count, storage) {
            Ok(()) => Ok(()),
            Err(_) => Err(ProgramError::BorshIoError),
        }
    }
}

/// A counter that is encoded and then decoded comes back unchanged, whatever
/// its count.
pub proof fn lemma_counter_round_trip(counter: Counter)
    ensures
        counter.encoding().len() == Counter::USIZE,
        Counter::decoding(counter.encoding()) == Some(counter),
{
    lemma_le_limits();
    lemma_le_bytes_len(counter.count as nat, 8);
    lemma_le_value_of_bytes(counter.count as nat, 8);
}

/// Storage that decodes to a counter is that counter's encoding: no two
/// stored forms stand for one count.
pub proof fn lemma_counter_encoding_of_decoding(bytes: Seq<u8>)
    requires
        Counter::decoding(bytes) is Some,
    ensures
        Counter::decoding(bytes).unwrap().encoding() == bytes,
{
    lemma_le_limits();
    lemma_le_bytes_of_value(bytes);
}

} // verus!
