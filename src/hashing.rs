//! Index derivation: two base hashes of an item, combined by double hashing
//! into a family of bit positions.

use vstd::prelude::*;

use fasthash::city::Hasher64 as CityHasher64;
use fasthash::murmur::Hasher32 as MurmurHasher32;
use fasthash::FastHasher;
use std::hash::Hasher;
use vstd::endian::{endianness, Endian};

verus! {

/// The machine that runs this code stores integers least significant byte
/// first.
pub open spec fn machine_little_endian() -> bool {
    endianness() == Endian::Little
}

/// Relies on `u16::from_ne_bytes`: the bytes `[1, 0]` read in the machine's
/// own byte order give 1 on a little-endian machine and 256 on a big-endian
/// one.
#[verifier::external_body]
fn native_order_marker() -> (r: u16)
    ensures
        machine_little_endian() ==> r == 1,
        !machine_little_endian() ==> r == 256,
{
    u16::from_ne_bytes([1, 0])
}

/// Whether the machine that runs this code is little-endian.
pub fn native_little_endian() -> (r: bool)
    ensures
        r == machine_little_endian(),
{
    native_order_marker() == 1
}

/// The 32-bit MurmurHash of the UTF-8 bytes of an item, on a machine of the
/// given byte order: MurmurHash 1 reads the bytes four at a time as native
/// integers, so the digest differs between little- and big-endian machines.
pub uninterp spec fn murmur32_of(item: Seq<char>, little_endian: bool) -> u64;

/// The 64-bit CityHash of the UTF-8 bytes of an item.
pub uninterp spec fn city64_of(item: Seq<char>) -> u64;

/// Relies on `fasthash::murmur::Hasher32`: unseeded, it hashes the bytes
/// written to it with MurmurHash 1 under seed 0, reading each 4-byte block in
/// the machine's byte order, and widens the 32-bit digest.
#[verifier::external_body]
pub(crate) fn murmur_hash(item: &str) -> (r: u64)
    ensures
        r == murmur32_of(item@, machine_little_endian()),
        r <= u32::MAX,
{
    let mut hasher: MurmurHasher32 = MurmurHasher32::new();
    hasher.write(item.as_bytes());
    hasher.finish()
}

/// Relies on `fasthash::city::Hasher64`: unseeded, it hashes the bytes
/// written to it with CityHash64.
#[verifier::external_body]
pub(crate) fn city_hash(item: &str) -> (r: u64)
    ensures
        r == city64_of(item@),
{
    let mut hasher: CityHasher64 = CityHasher64::new();
    hasher.write(item.as_bytes());
    hasher.finish()
}

/// Double hashing: the position that round `round` picks from the two base
/// hashes `first` and `second` in a bit store of `number_of_bits` positions.
pub open spec fn combined_index(first: int, second: int, round: int, number_of_bits: int) -> int {
    (first + round * second) % number_of_bits
}

/// The position that round `round` picks for `item` among `number_of_bits`,
/// with the hashes taken on a machine of the given byte order.
pub open spec fn item_index(item: Seq<char>, round: int, number_of_bits: int, little_endian: bool) -> int {
    combined_index(murmur32_of(item, little_endian) as int, city64_of(item) as int, round, number_of_bits)
}

/// Combines two base hashes into the position of one round: the sum
/// `first + round * second` is taken in 128 bits, where it cannot wrap, and
/// reduced modulo `number_of_bits`.
pub fn index_from_hashes(first: u64, second: u64, round: u32, number_of_bits: u32) -> (r: usize)
    requires
        number_of_bits > 0,
    ensures
        r as int == combined_index(first as int, second as int, round as int, number_of_bits as int),
        r < number_of_bits,
{
    assert(round as int * second as int <= 0xFFFF_FFFF * 0xFFFF_FFFF_FFFF_FFFF) by (nonlinear_arith)
        requires
            round <= 0xFFFF_FFFFu32,
            second <= 0xFFFF_FFFF_FFFF_FFFFu64,
    ;
    let scaled: u128 = round as u128 * second as u128;
    let combined: u128 = first as u128 + scaled;
    (combined % number_of_bits as u128) as usize
}

} // verus!
