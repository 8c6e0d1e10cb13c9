//! The failures an instruction can end with.

use vstd::prelude::*;

verus! {

/// Why an instruction was aborted. Every error is fatal to the instruction
/// that raised it: no account is changed when one is returned.
#[derive(Clone, Copy, Debug, PartialEq, Eq, Structural)]
pub enum ProgramError {
    /// The discriminator is unknown, or the payload does not follow the
    /// layout that the discriminator calls for.
    InvalidInstructionData,
    /// A supplied account is not the one derived for the claimed owner.
    InvalidArgument,
    /// The initiating account has not signed the transaction.
    MissingRequiredSignature,
    /// Fewer accounts were supplied than the instruction takes.
    NotEnoughAccountKeys,
    /// The counter account's storage does not hold an encoded counter.
    BorshIoError,
    /// The increase would take the count past the largest value it can hold.
    ArithmeticOverflow,
    /// A failure that the host reports for a request, by its code.
    Host(u64),
}

} // verus!
