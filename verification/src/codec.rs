//! The binary layout of payloads and of the counter's storage: integers in
//! little-endian order, lists and byte strings behind a 32-bit length.
//!
//! The bytes are read and written by `borsh`; this module states what it
//! reads and writes, and proves that a value can be told from its encoding.

use vstd::prelude::*;
use borsh::BorshDeserialize;
use borsh::BorshSerialize;

verus! {

/// The number that `bytes` spell in little-endian order.
pub open spec fn le_value(bytes: Seq<u8>) -> nat
    decreases bytes.len(),
{
    if bytes.len() == 0 {
        0
    } else {
        bytes[0] as nat + 256 * le_value(bytes.skip(1))
    }
}

/// The `width` bytes that spell `value` in little-endian order. A value too
/// large for the width loses its high part.
pub open spec fn le_bytes(value: nat, width: nat) -> Seq<u8>
    decreases width,
{
    if width == 0 {
        Seq::empty()
    } else {
        seq![(value % 256) as u8] + le_bytes(value / 256, (width - 1) as nat)
    }
}

/// The number of values that `width` bytes can spell: 256 to the power of
/// `width`.
pub open spec fn le_limit(width: nat) -> nat
    decreases width,
{
    if width == 0 {
        1
    } else {
        256 * le_limit((width - 1) as nat)
    }
}

/// Four bytes spell the numbers of a `u32` and eight bytes those of a
/// `u64`.
pub proof fn lemma_le_limits()
    ensures
        le_limit(4) == u32::MAX + 1,
        le_limit(8) == u64::MAX + 1,
{
    reveal_with_fuel(le_limit, 9);
}

/// An encoding has the width that was asked for.
pub proof fn lemma_le_bytes_len(value: nat, width: nat)
    ensures
        le_bytes(value, width).len() == width,
    decreases width,
{
    if width > 0 {
        lemma_le_bytes_len(value / 256, (width - 1) as nat);
    }
}

/// Reading back what was written gives the value, where the value fits.
pub proof fn lemma_le_value_of_bytes(value: nat, width: nat)
    requires
        value < le_limit(width),
    ensures
        le_value(le_bytes(value, width)) == value,
    decreases width,
{
    if width > 0 {
        let rest = le_bytes(value / 256, (width - 1) as nat);
        let all = le_bytes(value, width);
        lemma_le_value_of_bytes(value / 256, (width - 1) as nat);
        assert(all.skip(1) =~= rest);
        assert(all[0] == (value % 256) as u8);
    }
}

/// Writing what was read gives the bytes back.
pub proof fn lemma_le_bytes_of_value(bytes: Seq<u8>)
    ensures
        le_value(bytes) < le_limit(bytes.len()),
        le_bytes(le_value(bytes), bytes.len()) == bytes,
    decreases bytes.len(),
{
    if bytes.len() > 0 {
        let rest = bytes.skip(1);
        lemma_le_bytes_of_value(rest);
        let value = le_value(bytes);
        assert(value == bytes[0] as nat + 256 * le_value(rest));
        assert(value % 256 == bytes[0] as nat);
        assert(value / 256 == le_value(rest));
        assert(le_bytes(value, bytes.len()) =~= bytes);
    }
}

/// Two values that fit the width and are written alike are the same value.
pub proof fn lemma_le_bytes_injective(a: nat, b: nat, width: nat)
    requires
        a < le_limit(width),
        b < le_limit(width),
        le_bytes(a, width) == le_bytes(b, width),
    ensures
        a == b,
{
    lemma_le_value_of_bytes(a, width);
    lemma_le_value_of_bytes(b, width);
}

/// The byte sequences held by a list of byte strings.
pub open spec fn seed_views(seeds: Seq<Vec<u8>>) -> Seq<Seq<u8>> {
    seeds.map_values(|seed: Vec<u8>| seed@)
}

/// One seed on the wire: its length in four bytes, then its bytes.
pub open spec fn seed_encoding(seed: Seq<u8>) -> Seq<u8> {
    le_bytes(seed.len(), 4) + seed
}

/// The seeds of a list on the wire, one after the other.
pub open spec fn seeds_encoding(seeds: Seq<Seq<u8>>) -> Seq<u8>
    decreases seeds.len(),
{
    if seeds.len() == 0 {
        Seq::empty()
    } else {
        seed_encoding(seeds[0]) + seeds_encoding(seeds.skip(1))
    }
}

/// A seed list on the wire: the number of seeds in four bytes, then the
/// seeds.
pub open spec fn seed_list_encoding(seeds: Seq<Seq<u8>>) -> Seq<u8> {
    le_bytes(seeds.len(), 4) + seeds_encoding(seeds)
}

/// Whether every length in the list fits the four bytes it is written in.
pub open spec fn seed_list_fits(seeds: Seq<Seq<u8>>) -> bool {
    &&& seeds.len() < le_limit(4)
    &&& forall|i: int| 0 <= i < seeds.len() ==> (#[trigger] seeds[i]).len() < le_limit(4)
}

/// Whether `bytes` is the encoding of the seed list `seeds`, nothing before
/// it and nothing after.
pub open spec fn is_seed_list(bytes: Seq<u8>, seeds: Seq<Seq<u8>>) -> bool {
    seed_list_fits(seeds) && bytes == seed_list_encoding(seeds)
}

/// Seed lists of one length that are written alike are the same list.
pub proof fn lemma_seeds_encoding_injective(a: Seq<Seq<u8>>, b: Seq<Seq<u8>>)
    requires
        a.len() == b.len(),
        seed_list_fits(a),
        seed_list_fits(b),
        seeds_encoding(a) == seeds_encoding(b),
    ensures
        a == b,
    decreases a.len(),
{
    if a.len() == 0 {
        assert(a =~= b);
    } else {
        let (x, y) = (a[0], b[0]);
        let (ra, rb) = (a.skip(1), b.skip(1));
        let (ea, eb) = (seeds_encoding(a), seeds_encoding(b));
        lemma_le_bytes_len(x.len(), 4);
        lemma_le_bytes_len(y.len(), 4);
        assert(ea.subrange(0, 4) =~= le_bytes(x.len(), 4));
        assert(eb.subrange(0, 4) =~= le_bytes(y.len(), 4));
        lemma_le_bytes_injective(x.len(), y.len(), 4);
        assert(ea.subrange(4, 4 + x.len() as int) =~= x);
        assert(eb.subrange(4, 4 + y.len() as int) =~= y);
        assert(ea.skip(4 + x.len() as int) =~= seeds_encoding(ra));
        assert(eb.skip(4 + y.len() as int) =~= seeds_encoding(rb));
        assert forall|i: int| 0 <= i < ra.len() implies (#[trigger] ra[i]).len() < le_limit(4) by {
            assert(ra[i] == a[i + 1]);
        }
        assert forall|i: int| 0 <= i < rb.len() implies (#[trigger] rb[i]).len() < le_limit(4) by {
            assert(rb[i] == b[i + 1]);
        }
        lemma_seeds_encoding_injective(ra, rb);
        assert(a =~= seq![x] + ra);
        assert(b =~= seq![y] + rb);
    }
}

/// A byte string is the encoding of at most one seed list.
pub proof fn lemma_seed_list_unique(bytes: Seq<u8>, a: Seq<Seq<u8>>, b: Seq<Seq<u8>>)
    requires
        is_seed_list(bytes, a),
        is_seed_list(bytes, b),
    ensures
        a == b,
{
    lemma_le_bytes_len(a.len(), 4);
    lemma_le_bytes_len(b.len(), 4);
    assert(bytes.subrange(0, 4) =~= le_bytes(a.len(), 4));
    assert(bytes.subrange(0, 4) =~= le_bytes(b.len(), 4));
    lemma_le_bytes_injective(a.len(), b.len(), 4);
    assert(bytes.skip(4) =~= seeds_encoding(a));
    assert(bytes.skip(4) =~= seeds_encoding(b));
    lemma_seeds_encoding_injective(a, b);
}

#[verifier::external_type_specification]
#[verifier::external_body]
pub struct ExIoError(std::io::Error);

/// Calls borsh's `try_from_slice` for `u64`. It reads eight bytes as a
/// little-endian number and fails on a slice of any other length.
#[verifier::external_body]
pub(crate) fn read_u64(bytes: &[u8]) -> (read: Result<u64, std::io::Error>)
    ensures
        read is Ok <==> bytes@.len() == 8,
        read matches Ok(value) ==> value == le_value(bytes@),
{
    u64::try_from_slice(bytes)
}

/// Calls borsh's `try_from_slice` for a list of byte strings. It reads the
/// number of items, then each item behind its length, and fails where the
/// slice ends early or goes on after the last item.
#[verifier::external_body]
pub(crate) fn read_seed_list(bytes: &[u8]) -> (read: Result<Vec<Vec<u8>>, std::io::Error>)
    ensures
        match read {
            Ok(seeds) => is_seed_list(bytes@, seed_views(seeds@)),
            Err(_) => forall|seeds: Seq<Seq<u8>>| !is_seed_list(bytes@, seeds),
        },
{
    Vec::<Vec<u8>>::try_from_slice(bytes)
}

/// Calls borsh's `serialize` for `u64` with the storage as the writer. It
/// puts the eight little-endian bytes of the value at the start of the
/// storage and touches nothing behind them.
#[verifier::external_body]
pub(crate) fn write_u64(value: u64, storage: &mut Vec<u8>) -> (written: Result<(), std::io::Error>)
    requires
        old(storage)@.len() >= 8,
    ensures
        written is Ok,
        final(storage)@ == le_bytes(value as nat, 8) + old(storage)@.skip(8),
{
    let mut window = storage.as_mut_slice();
    value.serialize(&mut window)
}

} // verus!
