//! The bit store: `bitarray_naive::BitArray`, seen through the flags it holds.

use vstd::prelude::*;

use bitarray_naive::{BitArray, OutOfRangeError};

verus! {

#[verifier::external_type_specification]
#[verifier::external_body]
pub struct ExBitArray(BitArray);

#[verifier::external_type_specification]
#[verifier::external_body]
pub struct ExOutOfRangeError(OutOfRangeError);

/// The flags that a bit array holds: one for each position below its size
/// that its bytes cover, in the order of the positions.
pub uninterp spec fn bit_array_flags(a: BitArray) -> Seq<bool>;

/// Relies on `BitArray::new`: `size / 8 + 1` zero bytes, so every position
/// below `size` is covered and reads as false.
#[verifier::external_body]
pub(crate) fn new_bit_array(size: u32) -> (r: BitArray)
    ensures
        bit_array_flags(r) == Seq::new(size as nat, |i: int| false),
{
    BitArray::new(size as i64)
}

/// Relies on `BitArray::get`: below the size it reads the flag at that
/// position.
#[verifier::external_body]
pub(crate) fn get_bit(a: &BitArray, position: u32) -> (r: Result<bool, OutOfRangeError>)
    requires
        position < bit_array_flags(*a).len(),
    ensures
        r is Ok,
        r->Ok_0 == bit_array_flags(*a)[position as int],
{
    a.get(position as i64)
}

/// Relies on `BitArray::set`: below the size it changes the flag at that
/// position and no other, touching only a byte that `new` allocated, so it
/// cannot panic there.
#[verifier::external_body]
pub(crate) fn set_bit(a: &mut BitArray, position: u32, flag: bool) -> (r: Result<(), OutOfRangeError>)
    requires
        position < bit_array_flags(*old(a)).len(),
    ensures
        r is Ok,
        bit_array_flags(*final(a)) == bit_array_flags(*old(a)).update(position as int, flag),
    no_unwind
{
    a.set(position as i64, flag)
}

} // verus!
