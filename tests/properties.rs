use bfilters::{
    check_configuration, index_from_hashes, native_little_endian, BloomFilter, ConfigurationError, FilterParts, FormatError,
    DEFAULT_FALSE_POSITIVE_PROBABILITY_BITS, PROBABILITY_ONE_BITS,
};

const HELLO_MURMUR: u64 = 1773990585;
const HELLO_CITY: u64 = 2578220239953316063;

fn filter(items_count: u32, number_of_bits: u32, number_of_hashes: u32) -> BloomFilter {
    BloomFilter::with_sizing(items_count, Some(0.35f32.to_bits()), number_of_bits, number_of_hashes).unwrap()
}

fn valid_parts() -> FilterParts {
    FilterParts {
        false_positive_probability: 0.35f32.to_bits(),
        number_of_bits: 20,
        items_count: 5,
        number_of_hashes: 2,
        bit_array_size: 20,
        packed_bits: vec![0b0000_0101, 0, 0b1000],
        items_added: 1,
        little_endian: native_little_endian(),
    }
}

#[test]
fn default_probability_is_four_tenths() {
    assert_eq!(DEFAULT_FALSE_POSITIVE_PROBABILITY_BITS, 0.4f32.to_bits());
    assert_eq!(PROBABILITY_ONE_BITS, 1.0f32.to_bits());
    assert_eq!(check_configuration(10, None), Ok(0.4f32.to_bits()));
    assert_eq!(check_configuration(10, Some(0.35f32.to_bits())), Ok(0.35f32.to_bits()));
}

#[test]
fn boundary_rates_are_rejected() {
    let invalid = Err(ConfigurationError::InvalidFalsePositiveRate);
    assert_eq!(check_configuration(100, Some(0.0f32.to_bits())), invalid);
    assert_eq!(check_configuration(100, Some(1.0f32.to_bits())), invalid);
    assert_eq!(check_configuration(100, Some((-0.0f32).to_bits())), invalid);
    assert_eq!(check_configuration(100, Some((-0.5f32).to_bits())), invalid);
    assert_eq!(check_configuration(100, Some(1.5f32.to_bits())), invalid);
    assert_eq!(check_configuration(100, Some(f32::NAN.to_bits())), invalid);
    assert_eq!(check_configuration(100, Some(f32::INFINITY.to_bits())), invalid);
    assert_eq!(check_configuration(100, Some(f32::MIN_POSITIVE.to_bits())), Ok(f32::MIN_POSITIVE.to_bits()));
    assert_eq!(check_configuration(100, Some(0.99999994f32.to_bits())), Ok(0.99999994f32.to_bits()));
}

#[test]
fn zero_capacity_is_rejected_first() {
    let zero = Err(ConfigurationError::ZeroCapacity);
    assert_eq!(check_configuration(0, None), zero);
    assert_eq!(check_configuration(0, Some(0.35f32.to_bits())), zero);
    assert_eq!(check_configuration(0, Some(1.0f32.to_bits())), zero);
    assert!(matches!(BloomFilter::with_sizing(0, None, 10, 2), Err(ConfigurationError::ZeroCapacity)));
    assert!(matches!(
        BloomFilter::with_sizing(10, Some(0.0f32.to_bits()), 10, 2),
        Err(ConfigurationError::InvalidFalsePositiveRate)
    ));
}

#[test]
fn error_messages() {
    assert_eq!(ConfigurationError::ZeroCapacity.message(), "The bloom filter's items count could not be 0.");
    assert_eq!(
        ConfigurationError::InvalidFalsePositiveRate.message(),
        "The bloom filter's false positive probability should be in range from 0 to 1."
    );
}

#[test]
fn fresh_filter_holds_its_parameters() {
    let f = BloomFilter::with_sizing(7, None, 64, 3).unwrap();
    assert_eq!(f.false_positive_probability(), 0.4f32.to_bits());
    assert_eq!(f.number_of_bits(), 64);
    assert_eq!(f.items_count(), 7);
    assert_eq!(f.number_of_hashes(), 3);
    assert_eq!(f.items_added(), 0);
}

#[test]
fn byte_order_is_the_machines() {
    let little: bool = u16::from_ne_bytes([1, 0]) == 1;
    assert_eq!(native_little_endian(), little);
    let f = filter(3, 10, 2);
    assert_eq!(f.little_endian(), little);
    assert_eq!(f.to_parts().little_endian, little);
}

#[test]
fn index_combines_hashes() {
    assert_eq!(index_from_hashes(10, 3, 2, 7), 2);
    assert_eq!(index_from_hashes(10, 3, 0, 7), 3);
    assert_eq!(index_from_hashes(u64::MAX, u64::MAX, u32::MAX, 1000), 40);
    assert_eq!(index_from_hashes(u64::MAX, u64::MAX, u32::MAX, u32::MAX), 0);
}

#[test]
fn index_follows_murmur_and_city_hashes() {
    // The MurmurHash digest of "hello" below is the little-endian one.
    if !native_little_endian() {
        return;
    }
    let mut f = filter(10, 1000, 4);
    let expected: [usize; 4] = [585, 648, 711, 774];
    for (round, want) in expected.iter().enumerate() {
        assert_eq!(f._calc_random_bit_array_index("hello", round as u32), *want);
    }
    let mut g = filter(10, 9235780, 4);
    assert_eq!(g._calc_random_bit_array_index("hello", 0), (HELLO_MURMUR % 9235780) as usize);
    assert_eq!(g._calc_random_bit_array_index("hello", 1), ((HELLO_MURMUR + HELLO_CITY) % 9235780) as usize);
    assert_eq!(g._calc_random_bit_array_index("hello", 3), 3672134);
}

#[test]
fn insert_sets_the_picked_bits() {
    if !native_little_endian() {
        return;
    }
    let mut f = filter(10, 1000, 4);
    assert!(f.insert("hello"));
    let parts = f.to_parts();
    for position in 0..1000u32 {
        let set = (parts.packed_bits[(position / 8) as usize] >> (position % 8)) & 1 == 1;
        assert_eq!(set, [585, 648, 711, 774].contains(&position));
    }
    assert_eq!(f.items_added(), 1);
}

#[test]
fn inserted_items_are_always_found() {
    let items = ["alpha", "beta", "gamma", "delta", "epsilon", "zeta", "eta", "theta"];
    let mut f = filter(8, 64, 3);
    for (i, item) in items.iter().enumerate() {
        assert!(f.insert(item));
        for earlier in &items[..=i] {
            assert!(f.is_probably_present(earlier));
        }
    }
}

#[test]
fn capacity_gate_scenario() {
    let mut f = BloomFilter::with_sizing(3, Some(0.35f32.to_bits()), 7, 2).unwrap();
    assert!(f.insert("John Green"));
    assert!(f.insert("Steve Red"));
    assert!(f.insert("Mark Adams"));
    let before = f.to_parts();
    assert!(!f.insert("John Doe"));
    assert_eq!(f.items_added(), 3);
    assert_eq!(f.to_parts().packed_bits, before.packed_bits);
}

#[test]
fn empty_filter_contains_nothing() {
    let mut f = BloomFilter::with_sizing(100, None, 191, 2).unwrap();
    assert!(!f.is_probably_present("anything"));
    assert!(!f.is_probably_present(""));
}

#[test]
fn one_bit_filter_answers_true_after_any_insert() {
    let mut f = filter(2, 1, 3);
    assert!(!f.is_probably_present("x"));
    assert!(f.insert("y"));
    assert!(f.is_probably_present("x"));
}

#[test]
fn parts_round_trip() {
    let mut f = filter(5, 45, 3);
    f.insert("John Green");
    f.insert("Steve Red");
    let parts = f.to_parts();
    assert_eq!(parts.packed_bits.len(), 6);
    assert_eq!(parts.bit_array_size, 45);
    let mut g = BloomFilter::from_parts(parts).unwrap();
    assert_eq!(g.false_positive_probability(), f.false_positive_probability());
    assert_eq!(g.number_of_bits(), 45);
    assert_eq!(g.items_count(), 5);
    assert_eq!(g.number_of_hashes(), 3);
    assert_eq!(g.items_added(), 2);
    assert_eq!(g.little_endian(), f.little_endian());
    assert_eq!(g.to_parts().packed_bits, f.to_parts().packed_bits);
    for item in ["John Green", "Steve Red", "Mark Adams", "John Doe", "x", ""] {
        assert_eq!(g.is_probably_present(item), f.is_probably_present(item));
    }
}

#[test]
fn from_parts_reads_packed_flags() {
    let f = BloomFilter::from_parts(valid_parts()).unwrap();
    let parts = f.to_parts();
    assert_eq!(parts.packed_bits, vec![0b0000_0101, 0, 0b1000]);
    assert_eq!(f.items_added(), 1);
}

#[test]
fn from_parts_clears_bits_past_the_end() {
    let mut parts = valid_parts();
    parts.packed_bits = vec![0, 0, 0xFF];
    let f = BloomFilter::from_parts(parts).unwrap();
    assert_eq!(f.to_parts().packed_bits, vec![0, 0, 0x0F]);
}

#[test]
fn from_parts_rejects_each_broken_rule() {
    let cases: [(fn(&mut FilterParts), FormatError); 9] = [
        (|p| p.false_positive_probability = 0, FormatError::InvalidFalsePositiveRate),
        (|p| p.false_positive_probability = 1.0f32.to_bits(), FormatError::InvalidFalsePositiveRate),
        (|p| p.items_count = 0, FormatError::ZeroCapacity),
        (|p| p.number_of_bits = 0, FormatError::ZeroBitCount),
        (|p| p.number_of_hashes = 0, FormatError::ZeroHashCount),
        (|p| p.bit_array_size = 21, FormatError::BitCountMismatch),
        (|p| p.packed_bits.push(0), FormatError::PackedLengthMismatch),
        (|p| p.items_added = 6, FormatError::ItemsOverCapacity),
        (|p| p.little_endian = !p.little_endian, FormatError::ByteOrderMismatch),
    ];
    for (breaks, expected) in cases {
        let mut parts = valid_parts();
        breaks(&mut parts);
        assert_eq!(BloomFilter::from_parts(parts).err(), Some(expected));
    }
}
