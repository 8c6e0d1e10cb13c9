use rollup_counter::address::{counter_seed_list, find_counter_address, Address, COUNTER_TAG};
use solana_program::pubkey::Pubkey;

fn address(fill: u8) -> Address {
    Address { bytes: [fill; 32] }
}

#[test]
fn the_namespace_tag_spells_counter_account() {
    assert_eq!(&COUNTER_TAG[..], &b"counter_account"[..]);
}

#[test]
fn the_seed_list_is_the_tag_and_the_owner() {
    let owner = address(3);
    assert_eq!(counter_seed_list(&owner), vec![b"counter_account".to_vec(), vec![3u8; 32]]);
}

#[test]
fn deriving_twice_gives_the_same_address_and_bump() {
    for fill in [0u8, 1, 2, 77, 255] {
        let owner = address(fill);
        let program_id = address(fill.wrapping_add(9));
        let first = find_counter_address(&owner, &program_id);
        let second = find_counter_address(&owner, &program_id);
        assert!(first.is_some());
        assert_eq!(first, second);
    }
}

#[test]
fn the_address_is_the_program_derived_address() {
    let owner = address(11);
    let program_id = address(42);
    let (expected, bump) = Pubkey::find_program_address(
        &[b"counter_account", &owner.bytes],
        &Pubkey::new_from_array(program_id.bytes),
    );
    assert_eq!(
        find_counter_address(&owner, &program_id),
        Some((Address { bytes: expected.to_bytes() }, bump))
    );
}

#[test]
fn the_address_with_its_bump_is_a_valid_program_address() {
    let owner = address(5);
    let program_id = address(6);
    let (found, bump) = find_counter_address(&owner, &program_id).unwrap();
    let created = Pubkey::create_program_address(
        &[b"counter_account", &owner.bytes, &[bump]],
        &Pubkey::new_from_array(program_id.bytes),
    );
    assert_eq!(created, Ok(Pubkey::new_from_array(found.bytes)));
    assert!(!Pubkey::new_from_array(found.bytes).is_on_curve());
}

#[test]
fn the_address_is_neither_the_owner_nor_the_program() {
    let owner = address(5);
    let program_id = address(6);
    let (found, _) = find_counter_address(&owner, &program_id).unwrap();
    assert_ne!(found, owner);
    assert_ne!(found, program_id);
}

#[test]
fn other_owners_and_other_programs_have_other_counters() {
    let (first, _) = find_counter_address(&address(1), &address(9)).unwrap();
    let (other_owner, _) = find_counter_address(&address(2), &address(9)).unwrap();
    let (other_program, _) = find_counter_address(&address(1), &address(10)).unwrap();
    assert_ne!(first, other_owner);
    assert_ne!(first, other_program);
}

#[test]
fn addresses_compare_by_their_bytes() {
    let mut bytes = [8u8; 32];
    assert!(address(8).matches(&Address { bytes }));
    bytes[31] = 9;
    assert!(!address(8).matches(&Address { bytes }));
    bytes[31] = 8;
    bytes[0] = 0;
    assert!(!address(8).matches(&Address { bytes }));
}

#[test]
fn an_address_as_a_seed_is_its_bytes() {
    let mut bytes = [0u8; 32];
    for (i, byte) in bytes.iter_mut().enumerate() {
        *byte = i as u8;
    }
    assert_eq!(Address { bytes }.to_seed(), bytes.to_vec());
}
