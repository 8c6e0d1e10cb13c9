//! The instructions of the program and their wire format: an eight-byte
//! discriminator, then the payload that the discriminator calls for.

use vstd::prelude::*;
use vstd::slice::slice_subrange;
use crate::codec::{is_seed_list, le_value, lemma_seed_list_unique, read_seed_list, read_u64,
    seed_views};
use crate::error::ProgramError;

verus! {

/// What an instruction asks the program to do.
#[derive(Debug, PartialEq, Eq)]
pub enum ProgramInstruction {
    /// Create the counter where it does not exist yet, and set it to 0.
    InitializeCounter,
    /// Add `increase_by` to the counter.
    IncreaseCounter { increase_by: u64 },
    /// Hand the counter over from the base layer to the rollup.
    Delegate,
    /// On the rollup: schedule a commit to the base layer and the return of
    /// the counter to it.
    CommitAndUndelegate,
    /// On the rollup: schedule a commit to the base layer.
    Commit,
    /// On the base layer: take the counter back. `pda_seeds` are the seeds
    /// its address was derived from.
    Undelegate { pda_seeds: Vec<Vec<u8>> },
}

/// An instruction as a mathematical value.
pub enum InstructionView {
    InitializeCounter,
    IncreaseCounter { increase_by: u64 },
    Delegate,
    CommitAndUndelegate,
    Commit,
    Undelegate { pda_seeds: Seq<Seq<u8>> },
}

impl View for ProgramInstruction {
    type V = InstructionView;

    open spec fn view(&self) -> InstructionView {
        match *self {
            ProgramInstruction::InitializeCounter => InstructionView::InitializeCounter,
            ProgramInstruction::IncreaseCounter { increase_by } => {
                InstructionView::IncreaseCounter { increase_by }
            },
            ProgramInstruction::Delegate => InstructionView::Delegate,
            ProgramInstruction::CommitAndUndelegate => InstructionView::CommitAndUndelegate,
            ProgramInstruction::Commit => InstructionView::Commit,
            ProgramInstruction::Undelegate { pda_seeds } => InstructionView::Undelegate {
                pda_seeds: seed_views(pda_seeds@),
            },
        }
    }
}

/// The discriminator of `Undelegate`.
pub const UNDELEGATE_DISCRIMINATOR: [u8; 8] = [196, 28, 41, 206, 48, 37, 51, 167];

/// The discriminator of one of the five numbered instructions: the number in
/// the first byte, zeroes in the other seven.
pub open spec fn numbered_discriminator(number: u8) -> Seq<u8> {
    seq![number, 0u8, 0u8, 0u8, 0u8, 0u8, 0u8, 0u8]
}

/// Whether `input` is a wire form of `instruction`. An instruction without
/// a payload may be followed by any bytes; a payload must fill the rest of
/// the input exactly.
pub open spec fn decodes_to(input: Seq<u8>, instruction: InstructionView) -> bool {
    &&& input.len() >= 8
    &&& match instruction {
        InstructionView::InitializeCounter => input.take(8) == numbered_discriminator(0),
        InstructionView::IncreaseCounter { increase_by } => {
            &&& input.take(8) == numbered_discriminator(1)
            &&& input.len() == 16
            &&& increase_by == le_value(input.skip(8))
        },
        InstructionView::Delegate => input.take(8) == numbered_discriminator(2),
        InstructionView::CommitAndUndelegate => input.take(8) == numbered_discriminator(3),
        InstructionView::Commit => input.take(8) == numbered_discriminator(4),
        InstructionView::Undelegate { pda_seeds } => {
            &&& input.take(8) == UNDELEGATE_DISCRIMINATOR@
            &&& is_seed_list(input.skip(8), pda_seeds)
        },
    }
}

/// The instruction that `input` carries, or `None` where it carries none.
pub open spec fn decoding(input: Seq<u8>) -> Option<InstructionView> {
    if exists|instruction: InstructionView| decodes_to(input, instruction) {
        Some(choose|instruction: InstructionView| decodes_to(input, instruction))
    } else {
        None
    }
}

/// An input is a wire form of at most one instruction.
pub proof fn lemma_decodes_to_one(input: Seq<u8>, a: InstructionView, b: InstructionView)
    requires
        decodes_to(input, a),
        decodes_to(input, b),
    ensures
        a == b,
{
    let tag = input.take(8);
    assert(numbered_discriminator(0)[0] == 0 && numbered_discriminator(1)[0] == 1
        && numbered_discriminator(2)[0] == 2 && numbered_discriminator(3)[0] == 3
        && numbered_discriminator(4)[0] == 4 && UNDELEGATE_DISCRIMINATOR@[0] == 196);
    match (a, b) {
        (
            InstructionView::Undelegate { pda_seeds: seeds_a },
            InstructionView::Undelegate { pda_seeds: seeds_b },
        ) => {
            lemma_seed_list_unique(input.skip(8), seeds_a, seeds_b);
        },
        _ => {},
    }
}

/// What an input is a wire form of is what it decodes to.
pub proof fn lemma_decoding_is(input: Seq<u8>, instruction: InstructionView)
    requires
        decodes_to(input, instruction),
    ensures
        decoding(input) == Some(instruction),
{
    lemma_decodes_to_one(input, instruction, decoding(input).unwrap());
}

/// Whether the first eight bytes of `input` are `tag`.
fn has_discriminator(input: &[u8], tag: &[u8; 8]) -> (has: bool)
    requires
        input@.len() >= 8,
    ensures
        has == (input@.take(8) == tag@),
{
    let mut i: usize = 0;
    while i < 8
        invariant
            i <= 8,
            input@.len() >= 8,
            forall|j: int| 0 <= j < i ==> input@[j] == tag@[j],
        decreases 8 - i,
    {
        if input[i] != tag[i] {
            assert(input@.take(8)[i as int] != tag@[i as int]);
            return false;
        }
        i += 1;
    }
    assert(input@.take(8) =~= tag@);
    true
}

impl ProgramInstruction {
    /// Decodes an instruction from its wire form. Fails with
    /// `InvalidInstructionData` on every input that is the wire form of no
    /// instruction: one shorter than a discriminator, one with an unknown
    /// discriminator, one whose payload does not follow its layout.
    pub fn unpack(input: &[u8]) -> (unpacked: Result<ProgramInstruction, ProgramError>)
        ensures
            match unpacked {
                Ok(instruction) => decoding(input@) == Some(instruction@),
                Err(error) => error == ProgramError::InvalidInstructionData && decoding(input@)
                    is None,
            },
    {
        if input.len() < 8 {
            return Err(ProgramError::InvalidInstructionData);
        }
        let rest = slice_subrange(input, 8, input.len());
        let instruction = if has_discriminator(input, &[0, 0, 0, 0, 0, 0, 0, 0]) {
            ProgramInstruction::InitializeCounter
        } else if has_discriminator(input, &[1, 0, 0, 0, 0, 0, 0, 0]) {
            match read_u64(rest) {
                Ok(increase_by) => ProgramInstruction::IncreaseCounter { increase_by },
                Err(_) => {
                    assert forall|other: InstructionView| !decodes_to(input@, other) by {
                        if decodes_to(input@, other) {
                            lemma_tags_differ();
                        }
                    }
                    return Err(ProgramError::InvalidInstructionData);
                },
            }
        } else if has_discriminator(input, &[2, 0, 0, 0, 0, 0, 0, 0]) {
            ProgramInstruction::Delegate
        } else if has_discriminator(input, &[3, 0, 0, 0, 0, 0, 0, 0]) {
            ProgramInstruction::CommitAndUndelegate
        } else if has_discriminator(input, &[4, 0, 0, 0, 0, 0, 0, 0]) {
            ProgramInstruction::Commit
        } else if has_discriminator(input, &UNDELEGATE_DISCRIMINATOR) {
            match read_seed_list(rest) {
                Ok(pda_seeds) => ProgramInstruction::Undelegate { pda_seeds },
                Err(_) => {
                    assert forall|other: InstructionView| !decodes_to(input@, other) by {
                        if decodes_to(input@, other) {
                            lemma_tags_differ();
                        }
                    }
                    return Err(ProgramError::InvalidInstructionData);
                },
            }
        } else {
            return Err(ProgramError::InvalidInstructionData);
        };
        proof {
            lemma_decoding_is(input@, instruction@);
        }
        Ok(instruction)
    }
}

/// No two discriminators are alike.
proof fn lemma_tags_differ()
    ensures
        numbered_discriminator(0)[0] == 0,
        numbered_discriminator(1)[0] == 1,
        numbered_discriminator(2)[0] == 2,
        numbered_discriminator(3)[0] == 3,
        numbered_discriminator(4)[0] == 4,
        UNDELEGATE_DISCRIMINATOR@[0] == 196,
{
}

} // verus!
