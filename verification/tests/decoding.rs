use rollup_counter::error::ProgramError;
use rollup_counter::instructions::{ProgramInstruction, UNDELEGATE_DISCRIMINATOR};

fn numbered(number: u8) -> Vec<u8> {
    vec![number, 0, 0, 0, 0, 0, 0, 0]
}

fn undelegate_input(payload: &[u8]) -> Vec<u8> {
    let mut input = UNDELEGATE_DISCRIMINATOR.to_vec();
    input.extend_from_slice(payload);
    input
}

#[test]
fn eight_zero_bytes_are_initialize_counter() {
    assert_eq!(ProgramInstruction::unpack(&[0u8; 8]), Ok(ProgramInstruction::InitializeCounter));
}

#[test]
fn seven_bytes_are_invalid_instruction_data() {
    assert_eq!(ProgramInstruction::unpack(&[0u8; 7]), Err(ProgramError::InvalidInstructionData));
}

#[test]
fn empty_input_is_invalid_instruction_data() {
    assert_eq!(ProgramInstruction::unpack(&[]), Err(ProgramError::InvalidInstructionData));
}

#[test]
fn increase_by_forty_two() {
    let mut input = numbered(1);
    input.extend_from_slice(&42u64.to_le_bytes());
    assert_eq!(
        ProgramInstruction::unpack(&input),
        Ok(ProgramInstruction::IncreaseCounter { increase_by: 42 })
    );
}

#[test]
fn increase_by_reads_little_endian() {
    let mut input = numbered(1);
    input.extend_from_slice(&[0x01, 0x02, 0x03, 0x04, 0x05, 0x06, 0x07, 0x08]);
    assert_eq!(
        ProgramInstruction::unpack(&input),
        Ok(ProgramInstruction::IncreaseCounter { increase_by: 0x0807_0605_0403_0201 })
    );
}

#[test]
fn increase_by_the_largest_value() {
    let mut input = numbered(1);
    input.extend_from_slice(&[0xff; 8]);
    assert_eq!(
        ProgramInstruction::unpack(&input),
        Ok(ProgramInstruction::IncreaseCounter { increase_by: u64::MAX })
    );
}

#[test]
fn increase_with_a_truncated_payload_is_refused() {
    let mut input = numbered(1);
    input.extend_from_slice(&[42, 0, 0, 0, 0, 0, 0]);
    assert_eq!(ProgramInstruction::unpack(&input), Err(ProgramError::InvalidInstructionData));
}

#[test]
fn increase_without_a_payload_is_refused() {
    assert_eq!(ProgramInstruction::unpack(&numbered(1)), Err(ProgramError::InvalidInstructionData));
}

#[test]
fn increase_with_a_payload_that_goes_on_is_refused() {
    let mut input = numbered(1);
    input.extend_from_slice(&[42, 0, 0, 0, 0, 0, 0, 0, 0]);
    assert_eq!(ProgramInstruction::unpack(&input), Err(ProgramError::InvalidInstructionData));
}

#[test]
fn the_numbered_instructions_without_payload() {
    assert_eq!(ProgramInstruction::unpack(&numbered(2)), Ok(ProgramInstruction::Delegate));
    assert_eq!(
        ProgramInstruction::unpack(&numbered(3)),
        Ok(ProgramInstruction::CommitAndUndelegate)
    );
    assert_eq!(ProgramInstruction::unpack(&numbered(4)), Ok(ProgramInstruction::Commit));
}

#[test]
fn bytes_behind_an_instruction_without_payload_are_ignored() {
    let mut input = numbered(0);
    input.extend_from_slice(&[9, 9, 9]);
    assert_eq!(ProgramInstruction::unpack(&input), Ok(ProgramInstruction::InitializeCounter));
    let mut input = numbered(4);
    input.push(1);
    assert_eq!(ProgramInstruction::unpack(&input), Ok(ProgramInstruction::Commit));
}

#[test]
fn an_unknown_number_is_refused() {
    assert_eq!(ProgramInstruction::unpack(&numbered(5)), Err(ProgramError::InvalidInstructionData));
    assert_eq!(
        ProgramInstruction::unpack(&numbered(255)),
        Err(ProgramError::InvalidInstructionData)
    );
}

#[test]
fn a_number_with_a_set_high_byte_is_refused() {
    assert_eq!(
        ProgramInstruction::unpack(&[0, 0, 0, 0, 0, 0, 0, 1]),
        Err(ProgramError::InvalidInstructionData)
    );
    assert_eq!(
        ProgramInstruction::unpack(&[2, 1, 0, 0, 0, 0, 0, 0]),
        Err(ProgramError::InvalidInstructionData)
    );
}

#[test]
fn the_undelegate_discriminator() {
    assert_eq!(UNDELEGATE_DISCRIMINATOR, [196, 28, 41, 206, 48, 37, 51, 167]);
}

#[test]
fn undelegate_with_an_empty_seed_list() {
    assert_eq!(
        ProgramInstruction::unpack(&undelegate_input(&[0, 0, 0, 0])),
        Ok(ProgramInstruction::Undelegate { pda_seeds: vec![] })
    );
}

#[test]
fn undelegate_with_two_seeds() {
    let payload = [2, 0, 0, 0, 3, 0, 0, 0, b'a', b'b', b'c', 1, 0, 0, 0, 7];
    assert_eq!(
        ProgramInstruction::unpack(&undelegate_input(&payload)),
        Ok(ProgramInstruction::Undelegate { pda_seeds: vec![b"abc".to_vec(), vec![7]] })
    );
}

#[test]
fn undelegate_with_an_empty_seed_among_others() {
    let payload = [3, 0, 0, 0, 0, 0, 0, 0, 1, 0, 0, 0, 5, 0, 0, 0, 0];
    assert_eq!(
        ProgramInstruction::unpack(&undelegate_input(&payload)),
        Ok(ProgramInstruction::Undelegate { pda_seeds: vec![vec![], vec![5], vec![]] })
    );
}

#[test]
fn undelegate_with_the_seeds_of_a_counter() {
    let owner = [7u8; 32];
    let seeds = vec![b"counter_account".to_vec(), owner.to_vec()];
    let payload = borsh::to_vec(&seeds).unwrap();
    assert_eq!(payload.len(), 4 + 4 + 15 + 4 + 32);
    assert_eq!(
        ProgramInstruction::unpack(&undelegate_input(&payload)),
        Ok(ProgramInstruction::Undelegate { pda_seeds: seeds })
    );
}

#[test]
fn undelegate_without_a_payload_is_refused() {
    assert_eq!(
        ProgramInstruction::unpack(&undelegate_input(&[])),
        Err(ProgramError::InvalidInstructionData)
    );
}

#[test]
fn undelegate_with_a_seed_cut_short_is_refused() {
    let payload = [1, 0, 0, 0, 3, 0, 0, 0, b'a', b'b'];
    assert_eq!(
        ProgramInstruction::unpack(&undelegate_input(&payload)),
        Err(ProgramError::InvalidInstructionData)
    );
}

#[test]
fn undelegate_with_a_missing_seed_is_refused() {
    let payload = [2, 0, 0, 0, 1, 0, 0, 0, 9];
    assert_eq!(
        ProgramInstruction::unpack(&undelegate_input(&payload)),
        Err(ProgramError::InvalidInstructionData)
    );
}

#[test]
fn undelegate_with_bytes_behind_the_list_is_refused() {
    let payload = [1, 0, 0, 0, 1, 0, 0, 0, 9, 0];
    assert_eq!(
        ProgramInstruction::unpack(&undelegate_input(&payload)),
        Err(ProgramError::InvalidInstructionData)
    );
}

#[test]
fn undelegate_with_a_length_far_past_the_input_is_refused() {
    let payload = [0xff, 0xff, 0xff, 0xff, 1, 0, 0, 0, 9];
    assert_eq!(
        ProgramInstruction::unpack(&undelegate_input(&payload)),
        Err(ProgramError::InvalidInstructionData)
    );
}
