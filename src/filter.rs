//! The filter controller: construction, the capacity gate, insertion and
//! queries over the bit store.

use vstd::prelude::*;

use bitarray_naive::BitArray;

use crate::bits::{bit_array_flags, get_bit, new_bit_array, set_bit};
use crate::hashing::{city_hash, index_from_hashes, machine_little_endian, murmur_hash, native_little_endian};
use crate::model::{
    is_valid_probability, packed_flag, packed_len, resolved_probability, FilterModel, FilterParts, FormatError,
    DEFAULT_FALSE_POSITIVE_PROBABILITY_BITS, PROBABILITY_ONE_BITS,
};

verus! {

/// Why a filter could not be constructed.
#[derive(Debug, Clone, Copy, PartialEq, Eq, Structural)]
pub enum ConfigurationError {
    /// The capacity is 0.
    ZeroCapacity,
    /// The false-positive probability is not strictly between 0 and 1.
    InvalidFalsePositiveRate,
}

impl ConfigurationError {
    /// A sentence that says what was wrong.
    pub fn message(&self) -> (r: &'static str)
        ensures
            *self == ConfigurationError::ZeroCapacity ==> r@ == "The bloom filter's items count could not be 0."@,
            *self == ConfigurationError::InvalidFalsePositiveRate ==> r@
                == "The bloom filter's false positive probability should be in range from 0 to 1."@,
    {
        match self {
            ConfigurationError::ZeroCapacity => "The bloom filter's items count could not be 0.",
            ConfigurationError::InvalidFalsePositiveRate => {
                "The bloom filter's false positive probability should be in range from 0 to 1."
            },
        }
    }
}

/// The error, if any, that a construction with this capacity and this
/// (possibly absent) probability meets. The capacity is checked first.
pub open spec fn configuration_error(items_count: u32, given: Option<u32>) -> Option<ConfigurationError> {
    if items_count == 0 {
        Some(ConfigurationError::ZeroCapacity)
    } else if !is_valid_probability(resolved_probability(given)) {
        Some(ConfigurationError::InvalidFalsePositiveRate)
    } else {
        None
    }
}

/// Checks the parameters of a construction and resolves the false-positive
/// probability (the bit pattern of an `f32`) to the one given or the default.
pub fn check_configuration(items_count: u32, false_positive_probability_opt: Option<u32>) -> (r: Result<u32, ConfigurationError>)
    ensures
        configuration_error(items_count, false_positive_probability_opt) is Some ==> r is Err && r->Err_0
            == configuration_error(items_count, false_positive_probability_opt)->Some_0,
        configuration_error(items_count, false_positive_probability_opt) is None ==> r is Ok && r->Ok_0
            == resolved_probability(false_positive_probability_opt),
{
    if items_count == 0 {
        return Err(ConfigurationError::ZeroCapacity);
    }
    let false_positive_probability: u32 = match false_positive_probability_opt {
        Some(bits) => bits,
        None => DEFAULT_FALSE_POSITIVE_PROBABILITY_BITS,
    };
    if false_positive_probability == 0 || false_positive_probability >= PROBABILITY_ONE_BITS {
        return Err(ConfigurationError::InvalidFalsePositiveRate);
    }
    Ok(false_positive_probability)
}

/// A Bloom filter over string items.
pub struct BloomFilter {
    false_positive_probability: u32,
    number_of_bits: u32,
    items_count: u32,
    number_of_hashes: u32,
    bit_array: BitArray,
    items_added: u32,
    little_endian: bool,
}

impl View for BloomFilter {
    type V = FilterModel;

    closed spec fn view(&self) -> FilterModel {
        FilterModel {
            false_positive_probability: self.false_positive_probability,
            number_of_bits: self.number_of_bits as nat,
            items_count: self.items_count as nat,
            number_of_hashes: self.number_of_hashes as nat,
            bits: bit_array_flags(self.bit_array),
            items_added: self.items_added as nat,
            little_endian: self.little_endian,
        }
    }
}

impl BloomFilter {
    /// Every filter keeps the invariant of its model, and its positions are
    /// those that this machine's hashes pick.
    #[verifier::type_invariant]
    spec fn well_formed(&self) -> bool {
        self@.wf() && self.little_endian == machine_little_endian()
    }

    /// Creates an empty filter with the given capacity, false-positive
    /// probability (or the default) and sizing.
    pub fn with_sizing(
        items_count: u32,
        false_positive_probability_opt: Option<u32>,
        number_of_bits: u32,
        number_of_hashes: u32,
    ) -> (r: Result<BloomFilter, ConfigurationError>)
        requires
            number_of_bits > 0,
            number_of_hashes > 0,
        ensures
            configuration_error(items_count, false_positive_probability_opt) is Some ==> r is Err && r->Err_0
                == configuration_error(items_count, false_positive_probability_opt)->Some_0,
            configuration_error(items_count, false_positive_probability_opt) is None ==> r is Ok && r->Ok_0@
                == FilterModel::fresh(
                resolved_probability(false_positive_probability_opt),
                number_of_bits as nat,
                items_count as nat,
                number_of_hashes as nat,
                machine_little_endian(),
            ),
    {
        let false_positive_probability: u32 = match check_configuration(items_count, false_positive_probability_opt) {
            Ok(bits) => bits,
            Err(e) => return Err(e),
        };
        let filter = BloomFilter {
            false_positive_probability,
            number_of_bits,
            items_count,
            number_of_hashes,
            bit_array: new_bit_array(number_of_bits),
            items_added: 0,
            little_endian: native_little_endian(),
        };
        assert(filter@ == FilterModel::fresh(
            false_positive_probability,
            number_of_bits as nat,
            items_count as nat,
            number_of_hashes as nat,
            machine_little_endian(),
        ));
        Ok(filter)
    }

    /// The position that round `seed` picks for `item`: the double-hashing
    /// combination of its MurmurHash and CityHash digests, reduced modulo
    /// the number of bits.
    pub fn _calc_random_bit_array_index(&mut self, item: &str, seed: u32) -> (r: usize)
        ensures
            *final(self) == *old(self),
            old(self)@.wf(),
            r as int == old(self)@.index(item@, seed as int),
            r < old(self)@.number_of_bits,
    {
        let first: u64 = murmur_hash(item);
        let second: u64 = city_hash(item);
        proof {
            use_type_invariant(&*self);
        }
        index_from_hashes(first, second, seed, self.number_of_bits)
    }

    /// Inserts `item` when the filter still admits one: sets the position
    /// that each round picks and counts the item. A full filter is left as
    /// it is and `false` comes back.
    pub fn insert(&mut self, item: &str) -> (r: bool)
        ensures
            r == old(self)@.accepts(),
            final(self)@ == old(self)@.inserted(item@),
            final(self)@.wf(),
    {
        proof {
            use_type_invariant(&*self);
        }
        if self.items_added < self.items_count {
            let ghost start = self@;
            let mut i: u32 = 0;
            while i < self.number_of_hashes
                invariant
                    start == old(self)@,
                    start.wf(),
                    self.little_endian == machine_little_endian(),
                    start.accepts(),
                    i <= self.number_of_hashes,
                    self@ == (FilterModel { bits: self@.bits, ..start }),
                    self@.bits == Seq::new(
                        start.bits.len(),
                        |j: int| start.bits[j] || exists|round: int| 0 <= round < i && #[trigger] start.index(item@, round) == j,
                    ),
                decreases self.number_of_hashes - i,
            {
                let position: usize = self._calc_random_bit_array_index(item, i);
                match set_bit(&mut self.bit_array, position as u32, true) {
                    Ok(()) => {},
                    Err(_) => {
                        assert(false);
                    },
                }
                proof {
                    let next = Seq::new(
                        start.bits.len(),
                        |j: int| start.bits[j] || exists|round: int| 0 <= round < i + 1 && #[trigger] start.index(item@, round) == j,
                    );
                    assert forall|j: int| 0 <= j < start.bits.len() implies #[trigger] self@.bits[j] == next[j] by {
                        if j != position as int {
                            if exists|round: int| 0 <= round < i + 1 && #[trigger] start.index(item@, round) == j {
                                let round = choose|round: int| 0 <= round < i + 1 && #[trigger] start.index(item@, round) == j;
                                assert(0 <= round < i && start.index(item@, round) == j);
                            }
                        } else {
                            assert(start.index(item@, i as int) == j);
                        }
                    }
                    assert(self@.bits =~= next);
                }
                i = i + 1;
            }
            self.items_added = self.items_added + 1;
            proof {
                let target = start.inserted(item@);
                assert(self@.bits =~= target.bits);
            }
            true
        } else {
            false
        }
    }

    /// Answers whether `item` may have been inserted: `false` as soon as one
    /// round's position is clear, `true` when all are set.
    pub fn is_probably_present(&mut self, item: &str) -> (r: bool)
        ensures
            *final(self) == *old(self),
            old(self)@.wf(),
            r == old(self)@.might_contain(item@),
    {
        proof {
            use_type_invariant(&*self);
        }
        let mut i: u32 = 0;
        while i < self.number_of_hashes
            invariant
                *self == *old(self),
                self@.wf(),
                i <= self.number_of_hashes,
                forall|round: int| 0 <= round < i ==> self@.bits[#[trigger] self@.index(item@, round)],
            decreases self.number_of_hashes - i,
        {
            let position: usize = self._calc_random_bit_array_index(item, i);
            let flag: bool = match get_bit(&self.bit_array, position as u32) {
                Ok(flag) => flag,
                Err(_) => {
                    assert(false);
                    false
                },
            };
            if !flag {
                return false;
            }
            i = i + 1;
        }
        true
    }

    /// Rebuilds a filter from its framed state, refusing parts that break a
    /// rule of the filter with the first such rule. The flags of the new
    /// filter are read from the packed bytes.
    pub fn from_parts(parts: FilterParts) -> (r: Result<BloomFilter, FormatError>)
        ensures
            parts.format_error() is Some ==> r is Err && r->Err_0 == parts.format_error()->Some_0,
            parts.format_error() is None ==> r is Ok && r->Ok_0@ == parts.model(),
    {
        if parts.false_positive_probability == 0 || parts.false_positive_probability >= PROBABILITY_ONE_BITS {
            return Err(FormatError::InvalidFalsePositiveRate);
        }
        if parts.items_count == 0 {
            return Err(FormatError::ZeroCapacity);
        }
        if parts.number_of_bits == 0 {
            return Err(FormatError::ZeroBitCount);
        }
        if parts.number_of_hashes == 0 {
            return Err(FormatError::ZeroHashCount);
        }
        if parts.bit_array_size != parts.number_of_bits as i64 {
            return Err(FormatError::BitCountMismatch);
        }
        if parts.packed_bits.len() != (parts.number_of_bits / 8) as usize + 1 {
            return Err(FormatError::PackedLengthMismatch);
        }
        if parts.items_added > parts.items_count {
            return Err(FormatError::ItemsOverCapacity);
        }
        if parts.little_endian != native_little_endian() {
            return Err(FormatError::ByteOrderMismatch);
        }
        let number_of_bits: u32 = parts.number_of_bits;
        let mut bit_array: BitArray = new_bit_array(number_of_bits);
        let mut position: u32 = 0;
        while position < number_of_bits
            invariant
                number_of_bits == parts.number_of_bits,
                parts.packed_bits@.len() == packed_len(number_of_bits as nat),
                position <= number_of_bits,
                bit_array_flags(bit_array) == Seq::new(
                    number_of_bits as nat,
                    |q: int| q < position && packed_flag(parts.packed_bits@, q),
                ),
            decreases number_of_bits - position,
        {
            let byte: u8 = parts.packed_bits[(position / 8) as usize];
            if (byte >> ((position % 8) as u8)) & 1u8 == 1u8 {
                match set_bit(&mut bit_array, position, true) {
                    Ok(()) => {},
                    Err(_) => {
                        assert(false);
                    },
                }
            }
            assert(bit_array_flags(bit_array) =~= Seq::new(
                number_of_bits as nat,
                |q: int| q < position + 1 && packed_flag(parts.packed_bits@, q),
            ));
            position = position + 1;
        }
        let filter = BloomFilter {
            false_positive_probability: parts.false_positive_probability,
            number_of_bits,
            items_count: parts.items_count,
            number_of_hashes: parts.number_of_hashes,
            bit_array,
            items_added: parts.items_added,
            little_endian: parts.little_endian,
        };
        assert(filter@.bits =~= parts.model().bits);
        Ok(filter)
    }

    /// Frames the full state of the filter as plain values, packing its
    /// flags eight to a byte.
    pub fn to_parts(&self) -> (r: FilterParts)
        ensures
            self@.wf(),
            self@.little_endian == machine_little_endian(),
            r.frames(self@),
    {
        proof {
            use_type_invariant(self);
        }
        let number_of_bits: u32 = self.number_of_bits;
        let len: usize = (number_of_bits / 8) as usize + 1;
        let mut packed_bits: Vec<u8> = Vec::new();
        while packed_bits.len() < len
            invariant
                packed_bits@.len() <= len,
                forall|k: int| 0 <= k < packed_bits@.len() ==> packed_bits@[k] == 0u8,
            decreases len - packed_bits.len(),
        {
            packed_bits.push(0u8);
        }
        assert forall|q: int| 0 <= q < 8 * packed_bits@.len() implies !#[trigger] packed_flag(packed_bits@, q) by {
            let k: u8 = (q % 8) as u8;
            assert((0u8 >> k) & 1u8 == 0u8) by (bit_vector);
        }
        let mut position: u32 = 0;
        while position < number_of_bits
            invariant
                self@.wf(),
                number_of_bits == self.number_of_bits,
                len == packed_len(number_of_bits as nat),
                packed_bits@.len() == len,
                position <= number_of_bits,
                forall|q: int| 0 <= q < 8 * len ==> #[trigger] packed_flag(packed_bits@, q) == (q < position
                    && self@.bits[q]),
            decreases number_of_bits - position,
        {
            let flag: bool = match get_bit(&self.bit_array, position) {
                Ok(flag) => flag,
                Err(_) => {
                    assert(false);
                    false
                },
            };
            if flag {
                let slot: usize = (position / 8) as usize;
                let shift: u8 = (position % 8) as u8;
                let ghost before = packed_bits@;
                let byte: u8 = packed_bits[slot] | (1u8 << shift);
                packed_bits.set(slot, byte);
                assert forall|q: int| 0 <= q < 8 * len implies #[trigger] packed_flag(packed_bits@, q) == (q
                    < position + 1 && self@.bits[q]) by {
                    if q / 8 == slot as int {
                        let j: u8 = (q % 8) as u8;
                        let b: u8 = before[slot as int];
                        assert(((b | (1u8 << shift)) >> j) & 1u8 == (if j == shift {
                            1u8
                        } else {
                            (b >> j) & 1u8
                        })) by (bit_vector)
                            requires
                                shift < 8,
                                j < 8,
                        ;
                        assert(packed_flag(before, q) == (q < position && self@.bits[q]));
                    } else {
                        assert(packed_flag(before, q) == (q < position && self@.bits[q]));
                    }
                }
            } else {
                assert forall|q: int| 0 <= q < 8 * len implies #[trigger] packed_flag(packed_bits@, q) == (q
                    < position + 1 && self@.bits[q]) by {
                    assert(packed_flag(packed_bits@, q) == (q < position && self@.bits[q]));
                }
            }
            position = position + 1;
        }
        FilterParts {
            false_positive_probability: self.false_positive_probability,
            number_of_bits,
            items_count: self.items_count,
            number_of_hashes: self.number_of_hashes,
            bit_array_size: number_of_bits as i64,
            packed_bits,
            items_added: self.items_added,
            little_endian: self.little_endian,
        }
    }

    /// The bit pattern of the `f32` false-positive target.
    pub fn false_positive_probability(&self) -> (r: u32)
        ensures
            r == self@.false_positive_probability,
    {
        self.false_positive_probability
    }

    /// The number of bits of the bit store.
    pub fn number_of_bits(&self) -> (r: u32)
        ensures
            r == self@.number_of_bits,
    {
        self.number_of_bits
    }

    /// The capacity.
    pub fn items_count(&self) -> (r: u32)
        ensures
            r == self@.items_count,
    {
        self.items_count
    }

    /// The number of rounds per insertion or query.
    pub fn number_of_hashes(&self) -> (r: u32)
        ensures
            r == self@.number_of_hashes,
    {
        self.number_of_hashes
    }

    /// Whether the positions were picked by a little-endian machine's hashes.
    pub fn little_endian(&self) -> (r: bool)
        ensures
            r == self@.little_endian,
    {
        self.little_endian
    }

    /// How many items have been admitted.
    pub fn items_added(&self) -> (r: u32)
        ensures
            r == self@.items_added,
    {
        self.items_added
    }
}

} // verus!
