//! Account addresses and the derivation of the counter's address.

use vstd::prelude::*;
use solana_program::pubkey::Pubkey;
use crate::codec::seed_views;

verus! {

/// The 32 bytes that identify an account or a program.
#[derive(Clone, Copy, Debug, PartialEq, Eq)]
pub struct Address {
    pub bytes: [u8; 32],
}

/// The address and bump seed that the ledger derives for `seeds` under
/// `program_id`, or `None` where it derives none.
pub uninterp spec fn program_address(seeds: Seq<Seq<u8>>, program_id: Seq<u8>) -> Option<
    (Seq<u8>, u8),
>;

/// The namespace tag under which counter addresses are derived: the ASCII
/// bytes of `counter_account`.
pub const COUNTER_TAG: [u8; 15] = [
    99, 111, 117, 110, 116, 101, 114, 95, 97, 99, 99, 111, 117, 110, 116,
];

/// The seed list of the counter that belongs to `owner`: the namespace tag,
/// then the owner's address.
pub open spec fn counter_seeds(owner: Address) -> Seq<Seq<u8>> {
    seq![COUNTER_TAG@, owner.bytes@]
}

/// The address of the counter that belongs to `owner` under the program
/// `program_id`, with its bump seed.
pub open spec fn counter_address(owner: Address, program_id: Address) -> Option<(Seq<u8>, u8)> {
    program_address(counter_seeds(owner), program_id.bytes@)
}

/// Whether a derivation that ended with `derived` has yielded the address
/// `key`.
pub open spec fn yields(derived: Option<(Seq<u8>, u8)>, key: Address) -> bool {
    derived matches Some((address, _)) && address == key.bytes@
}

/// Whether `key` is the address of the counter that belongs to `owner`.
pub open spec fn is_counter_of(key: Address, owner: Address, program_id: Address) -> bool {
    yields(counter_address(owner, program_id), key)
}

/// The result of a derivation as a mathematical value.
pub open spec fn derivation_view(found: Option<(Address, u8)>) -> Option<(Seq<u8>, u8)> {
    match found {
        Some((address, bump)) => Some((address.bytes@, bump)),
        None => None,
    }
}

/// Calls `Pubkey::try_find_program_address`, which searches the bump seeds
/// from 255 downwards for the first one that yields an address off the
/// curve. The result depends on the seeds and the program id alone; the
/// contract gives it its name.
#[verifier::external_body]
fn try_find_program_address(seeds: &Vec<Vec<u8>>, program_id: &[u8; 32]) -> (found: Option<
    ([u8; 32], u8),
>)
    ensures
        match found {
            Some((address, bump)) => program_address(seed_views(seeds@), program_id@) == Some(
                (address@, bump),
            ),
            None => program_address(seed_views(seeds@), program_id@) is None,
        },
{
    let id = Pubkey::new_from_array(*program_id);
    let parts: Vec<&[u8]> = seeds.iter().map(|seed| seed.as_slice()).collect();
    Pubkey::try_find_program_address(&parts, &id).map(|(key, bump)| (key.to_bytes(), bump))
}

impl Address {
    /// Whether two addresses hold the same bytes.
    pub fn matches(&self, other: &Address) -> (same: bool)
        ensures
            same == (*self == *other),
            same == (self.bytes@ == other.bytes@),
    {
        let mut i: usize = 0;
        while i < 32
            invariant
                i <= 32,
                forall|j: int| 0 <= j < i ==> self.bytes[j] == other.bytes[j],
            decreases 32 - i,
        {
            if self.bytes[i] != other.bytes[i] {
                assert(self.bytes@[i as int] != other.bytes@[i as int]);
                return false;
            }
            i += 1;
        }
        assert(self.bytes =~= other.bytes);
        true
    }

    /// The bytes of the address as a seed.
    pub fn to_seed(&self) -> (seed: Vec<u8>)
        ensures
            seed@ == self.bytes@,
    {
        let mut seed: Vec<u8> = Vec::with_capacity(32);
        let mut i: usize = 0;
        while i < 32
            invariant
                i <= 32,
                seed@ == self.bytes@.take(i as int),
            decreases 32 - i,
        {
            seed.push(self.bytes[i]);
            assert(seed@ =~= self.bytes@.take(i + 1));
            i += 1;
        }
        assert(self.bytes@.take(32) =~= self.bytes@);
        seed
    }
}

/// The namespace tag as a seed.
fn tag_seed() -> (seed: Vec<u8>)
    ensures
        seed@ == COUNTER_TAG@,
{
    let mut seed: Vec<u8> = Vec::with_capacity(15);
    let mut i: usize = 0;
    while i < 15
        invariant
            i <= 15,
            seed@ == COUNTER_TAG@.take(i as int),
        decreases 15 - i,
    {
        seed.push(COUNTER_TAG[i]);
        assert(seed@ =~= COUNTER_TAG@.take(i + 1));
        i += 1;
    }
    assert(COUNTER_TAG@.take(15) =~= COUNTER_TAG@);
    seed
}

/// Builds the seed list of the counter that belongs to `owner`.
pub fn counter_seed_list(owner: &Address) -> (seeds: Vec<Vec<u8>>)
    ensures
        seed_views(seeds@) == counter_seeds(*owner),
{
    let mut seeds: Vec<Vec<u8>> = Vec::with_capacity(2);
    seeds.push(tag_seed());
    seeds.push(owner.to_seed());
    assert(seed_views(seeds@) =~= counter_seeds(*owner));
    seeds
}

/// Derives the address of the counter that belongs to `owner`, and the bump
/// seed that goes with it. The result depends on the two addresses alone:
/// the same owner and program always give the same address and bump.
pub fn find_counter_address(owner: &Address, program_id: &Address) -> (found: Option<
    (Address, u8),
>)
    ensures
        derivation_view(found) == counter_address(*owner, *program_id),
{
    let seeds = counter_seed_list(owner);
    match try_find_program_address(&seeds, &program_id.bytes) {
        Some((bytes, bump)) => Some((Address { bytes }, bump)),
        None => None,
    }
}

/// Deriving the counter address twice for one owner and one program yields
/// the same address and the same bump seed both times.
pub proof fn lemma_derivation_is_deterministic(
    owner: Address,
    program_id: Address,
    first: Option<(Address, u8)>,
    second: Option<(Address, u8)>,
)
    requires
        derivation_view(first) == counter_address(owner, program_id),
        derivation_view(second) == counter_address(owner, program_id),
    ensures
        first == second,
{
    if let (Some((a, _)), Some((b, _))) = (first, second) {
        assert(a.bytes =~= b.bytes);
    }
}

} // verus!
