use rollup_counter::error::ProgramError;
use rollup_counter::states::Counter;

#[test]
fn a_counter_takes_eight_bytes() {
    assert_eq!(Counter::USIZE, 8);
}

#[test]
fn round_trip_of_chosen_counts() {
    for count in [0u64, 1, 5, 10, 255, 256, 65_535, 1 << 32, u64::MAX - 1, u64::MAX] {
        let mut storage = vec![0xaau8; 8];
        assert_eq!(Counter { count }.serialize(&mut storage), Ok(()));
        assert_eq!(Counter::try_from_slice(&storage), Ok(Counter { count }));
    }
}

#[test]
fn the_stored_form_is_little_endian() {
    let mut storage = vec![0u8; 8];
    assert_eq!(Counter { count: 0x0102_0304_0506_0708 }.serialize(&mut storage), Ok(()));
    assert_eq!(storage, vec![8, 7, 6, 5, 4, 3, 2, 1]);
    assert_eq!(storage, borsh::to_vec(&0x0102_0304_0506_0708u64).unwrap());
}

#[test]
fn decoding_reads_little_endian() {
    assert_eq!(Counter::try_from_slice(&[10, 0, 0, 0, 0, 0, 0, 0]), Ok(Counter { count: 10 }));
    assert_eq!(Counter::try_from_slice(&[0, 1, 0, 0, 0, 0, 0, 0]), Ok(Counter { count: 256 }));
    assert_eq!(
        Counter::try_from_slice(&[0, 0, 0, 0, 0, 0, 0, 0x80]),
        Ok(Counter { count: 1 << 63 })
    );
}

#[test]
fn storage_of_another_size_holds_no_counter() {
    assert_eq!(Counter::try_from_slice(&[]), Err(ProgramError::BorshIoError));
    assert_eq!(Counter::try_from_slice(&[0; 7]), Err(ProgramError::BorshIoError));
    assert_eq!(Counter::try_from_slice(&[0; 9]), Err(ProgramError::BorshIoError));
}

#[test]
fn writing_leaves_the_bytes_behind_the_counter() {
    let mut storage = vec![0xee; 11];
    assert_eq!(Counter { count: 3 }.serialize(&mut storage), Ok(()));
    assert_eq!(storage, vec![3, 0, 0, 0, 0, 0, 0, 0, 0xee, 0xee, 0xee]);
}

#[test]
fn writing_to_short_storage_is_refused_and_changes_nothing() {
    let mut storage = vec![0xee; 7];
    assert_eq!(Counter { count: 3 }.serialize(&mut storage), Err(ProgramError::BorshIoError));
    assert_eq!(storage, vec![0xee; 7]);
    let mut storage: Vec<u8> = Vec::new();
    assert_eq!(Counter { count: 3 }.serialize(&mut storage), Err(ProgramError::BorshIoError));
    assert!(storage.is_empty());
}
