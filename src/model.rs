//! The mathematical model of a filter: its parameters, its flags and its
//! counter, with what `insert` and a query do to them.

use vstd::prelude::*;

use crate::hashing::{item_index, machine_little_endian};

verus! {

/// The binary32 encoding of 1.0: a false-positive probability is held as the
/// bit pattern of its `f32`, and for non-negative values that pattern orders
/// as the values do.
pub const PROBABILITY_ONE_BITS: u32 = 0x3F80_0000;

/// The binary32 encoding of 0.4, the false-positive probability used when
/// none is given.
pub const DEFAULT_FALSE_POSITIVE_PROBABILITY_BITS: u32 = 0x3ECC_CCCD;

/// A probability, given by its binary32 bit pattern, lies strictly between 0
/// and 1. Patterns with the sign bit set (negative values and -0.0), +0.0,
/// 1.0 and above, infinities and NaNs all fall outside.
pub open spec fn is_valid_probability(bits: u32) -> bool {
    0 < bits && bits < PROBABILITY_ONE_BITS
}

/// The probability that a construction uses: the one given, or the default.
pub open spec fn resolved_probability(given: Option<u32>) -> u32 {
    match given {
        Some(bits) => bits,
        None => DEFAULT_FALSE_POSITIVE_PROBABILITY_BITS,
    }
}

/// The abstract state of a Bloom filter.
pub struct FilterModel {
    /// Bit pattern of the `f32` false-positive target.
    pub false_positive_probability: u32,
    pub number_of_bits: nat,
    /// The capacity: how many items the filter admits.
    pub items_count: nat,
    pub number_of_hashes: nat,
    pub bits: Seq<bool>,
    pub items_added: nat,
    /// The byte order of the machine whose hashes picked the positions.
    pub little_endian: bool,
}

impl FilterModel {
    /// A filter with these parameters, all flags false and nothing inserted.
    pub open spec fn fresh(
        false_positive_probability: u32,
        number_of_bits: nat,
        items_count: nat,
        number_of_hashes: nat,
        little_endian: bool,
    ) -> FilterModel {
        FilterModel {
            false_positive_probability,
            number_of_bits,
            items_count,
            number_of_hashes,
            bits: Seq::new(number_of_bits, |i: int| false),
            items_added: 0,
            little_endian,
        }
    }

    /// The invariant of every filter.
    pub open spec fn wf(self) -> bool {
        &&& is_valid_probability(self.false_positive_probability)
        &&& 0 < self.items_count <= u32::MAX
        &&& 0 < self.number_of_bits <= u32::MAX
        &&& 0 < self.number_of_hashes <= u32::MAX
        &&& self.bits.len() == self.number_of_bits
        &&& self.items_added <= self.items_count
    }

    /// The position that round `round` picks for `item`.
    pub open spec fn index(self, item: Seq<char>, round: int) -> int {
        item_index(item, round, self.number_of_bits as int, self.little_endian)
    }

    /// Some round below `number_of_hashes` picks `position` for `item`.
    pub open spec fn marks(self, item: Seq<char>, position: int) -> bool {
        exists|round: int| 0 <= round < self.number_of_hashes && #[trigger] self.index(item, round) == position
    }

    /// The capacity gate: another item is still admitted.
    pub open spec fn accepts(self) -> bool {
        self.items_added < self.items_count
    }

    /// The state after inserting `item`: when admitted, every position that
    /// its rounds pick is set and the counter grows by one; otherwise nothing
    /// changes.
    pub open spec fn inserted(self, item: Seq<char>) -> FilterModel {
        if self.accepts() {
            FilterModel {
                bits: Seq::new(self.bits.len(), |j: int| self.bits[j] || self.marks(item, j)),
                items_added: self.items_added + 1,
                ..self
            }
        } else {
            self
        }
    }

    /// The state after inserting `items` in order.
    pub open spec fn inserted_all(self, items: Seq<Seq<char>>) -> FilterModel
        decreases items.len(),
    {
        if items.len() == 0 {
            self
        } else {
            self.inserted_all(items.drop_last()).inserted(items.last())
        }
    }

    /// The answer of a query: every round's position is set.
    pub open spec fn might_contain(self, item: Seq<char>) -> bool {
        forall|round: int| 0 <= round < self.number_of_hashes ==> self.bits[#[trigger] self.index(item, round)]
    }
}

/// The flag at `position` of a packed bit sequence: bit `position % 8`,
/// counted from the least significant, of byte `position / 8`.
pub open spec fn packed_flag(bytes: Seq<u8>, position: int) -> bool {
    (bytes[position / 8] >> ((position % 8) as u8)) & 1u8 == 1u8
}

/// The number of bytes that a packed store of `number_of_bits` flags holds.
pub open spec fn packed_len(number_of_bits: nat) -> nat {
    number_of_bits / 8 + 1
}

/// Why a framed filter state was refused.
#[derive(Debug, Clone, Copy, PartialEq, Eq, Structural)]
pub enum FormatError {
    /// The false-positive probability is not strictly between 0 and 1.
    InvalidFalsePositiveRate,
    /// The capacity is 0.
    ZeroCapacity,
    /// The number of bits is 0.
    ZeroBitCount,
    /// The number of hashes is 0.
    ZeroHashCount,
    /// The bit store's size differs from the number of bits.
    BitCountMismatch,
    /// The packed bytes are not as many as the number of bits asks for.
    PackedLengthMismatch,
    /// More items are counted than the capacity admits.
    ItemsOverCapacity,
    /// The positions were picked on a machine of the other byte order, where
    /// the hashes differ.
    ByteOrderMismatch,
}

/// The full state of a filter as plain values: its six fields, with the bit
/// store given by its size and its packed bytes.
pub struct FilterParts {
    /// Bit pattern of the `f32` false-positive target.
    pub false_positive_probability: u32,
    pub number_of_bits: u32,
    pub items_count: u32,
    pub number_of_hashes: u32,
    pub bit_array_size: i64,
    pub packed_bits: Vec<u8>,
    pub items_added: u32,
    /// The byte order of the machine whose hashes picked the positions.
    pub little_endian: bool,
}

impl FilterParts {
    /// The first rule of a filter that these parts break, if any. Parts
    /// framed on a machine of the other byte order are refused last.
    pub open spec fn format_error(&self) -> Option<FormatError> {
        if !is_valid_probability(self.false_positive_probability) {
            Some(FormatError::InvalidFalsePositiveRate)
        } else if self.items_count == 0 {
            Some(FormatError::ZeroCapacity)
        } else if self.number_of_bits == 0 {
            Some(FormatError::ZeroBitCount)
        } else if self.number_of_hashes == 0 {
            Some(FormatError::ZeroHashCount)
        } else if self.bit_array_size != self.number_of_bits as i64 {
            Some(FormatError::BitCountMismatch)
        } else if self.packed_bits@.len() != packed_len(self.number_of_bits as nat) {
            Some(FormatError::PackedLengthMismatch)
        } else if self.items_added > self.items_count {
            Some(FormatError::ItemsOverCapacity)
        } else if self.little_endian != machine_little_endian() {
            Some(FormatError::ByteOrderMismatch)
        } else {
            None
        }
    }

    /// The filter that these parts describe.
    pub open spec fn model(&self) -> FilterModel {
        FilterModel {
            false_positive_probability: self.false_positive_probability,
            number_of_bits: self.number_of_bits as nat,
            items_count: self.items_count as nat,
            number_of_hashes: self.number_of_hashes as nat,
            bits: Seq::new(self.number_of_bits as nat, |p: int| packed_flag(self.packed_bits@, p)),
            items_added: self.items_added as nat,
            little_endian: self.little_endian,
        }
    }

    /// These parts frame `m`: the same fields and byte order, a size equal to the number of
    /// bits, and packed bytes whose every bit is the flag at its position,
    /// clear past the last one.
    pub open spec fn frames(&self, m: FilterModel) -> bool {
        &&& self.false_positive_probability == m.false_positive_probability
        &&& self.number_of_bits as nat == m.number_of_bits
        &&& self.items_count as nat == m.items_count
        &&& self.number_of_hashes as nat == m.number_of_hashes
        &&& self.bit_array_size == self.number_of_bits as i64
        &&& self.packed_bits@.len() == packed_len(m.number_of_bits)
        &&& forall|p: int| 0 <= p < 8 * self.packed_bits@.len() ==> #[trigger] packed_flag(self.packed_bits@, p) == (p
            < m.number_of_bits && m.bits[p])
        &&& self.items_added as nat == m.items_added
        &&& self.little_endian == m.little_endian
    }
}

} // verus!
