//! Properties of the filter that hold across several operations, proved over
//! the model that the operations' contracts speak of.

use vstd::prelude::*;

use crate::filter::{configuration_error, ConfigurationError};
use crate::hashing::machine_little_endian;
use crate::model::{FilterModel, FilterParts, PROBABILITY_ONE_BITS};

verus! {

/// Inserting never clears a flag and keeps the filter well formed.
proof fn lemma_inserted_keeps_flags(m: FilterModel, item: Seq<char>)
    requires
        m.wf(),
    ensures
        m.inserted(item).wf(),
        m.inserted(item).number_of_bits == m.number_of_bits,
        m.inserted(item).number_of_hashes == m.number_of_hashes,
        m.inserted(item).little_endian == m.little_endian,
        forall|j: int| 0 <= j < m.bits.len() && m.bits[j] ==> #[trigger] m.inserted(item).bits[j],
{
}

/// Inserting a sequence of items never clears a flag and keeps the filter
/// well formed.
proof fn lemma_inserted_all_keeps_flags(m: FilterModel, items: Seq<Seq<char>>)
    requires
        m.wf(),
    ensures
        m.inserted_all(items).wf(),
        m.inserted_all(items).number_of_bits == m.number_of_bits,
        m.inserted_all(items).number_of_hashes == m.number_of_hashes,
        m.inserted_all(items).little_endian == m.little_endian,
        forall|j: int| 0 <= j < m.bits.len() && m.bits[j] ==> #[trigger] m.inserted_all(items).bits[j],
    decreases items.len(),
{
    if items.len() > 0 {
        lemma_inserted_all_keeps_flags(m, items.drop_last());
        lemma_inserted_keeps_flags(m.inserted_all(items.drop_last()), items.last());
    }
}

/// No false negatives: once `insert` has admitted `item`, every later query
/// for it answers `true`, whatever is inserted in between.
pub proof fn lemma_no_false_negatives(m: FilterModel, item: Seq<char>, later: Seq<Seq<char>>)
    requires
        m.wf(),
        m.accepts(),
    ensures
        m.inserted(item).inserted_all(later).might_contain(item),
{
    let after = m.inserted(item);
    lemma_inserted_keeps_flags(m, item);
    assert forall|round: int| 0 <= round < after.number_of_hashes implies after.bits[#[trigger] after.index(
        item,
        round,
    )] by {
        assert(m.index(item, round) == after.index(item, round));
        assert(m.marks(item, m.index(item, round)));
    }
    lemma_inserted_all_keeps_flags(after, later);
    let last = after.inserted_all(later);
    assert forall|round: int| 0 <= round < last.number_of_hashes implies last.bits[#[trigger] last.index(
        item,
        round,
    )] by {
        assert(after.bits[after.index(item, round)]);
    }
}

/// Counting while inserting: as long as the capacity is not reached, every
/// item is admitted and counted once.
proof fn lemma_inserted_all_counts(m: FilterModel, items: Seq<Seq<char>>)
    requires
        m.wf(),
        m.items_added + items.len() <= m.items_count,
    ensures
        m.inserted_all(items).items_added == m.items_added + items.len(),
        m.inserted_all(items).items_count == m.items_count,
        m.inserted_all(items).wf(),
    decreases items.len(),
{
    if items.len() > 0 {
        lemma_inserted_all_counts(m, items.drop_last());
    }
}

/// The capacity gate: from an empty filter, each of `items_count` inserts is
/// admitted; after them the count equals the capacity, and a further insert
/// is refused and changes nothing.
pub proof fn lemma_capacity_gate(m: FilterModel, items: Seq<Seq<char>>, extra: Seq<char>)
    requires
        m.wf(),
        m.items_added == 0,
        items.len() == m.items_count,
    ensures
        forall|i: int| 0 <= i < items.len() ==> #[trigger] m.inserted_all(items.take(i)).accepts(),
        m.inserted_all(items).items_added == m.items_count,
        !m.inserted_all(items).accepts(),
        m.inserted_all(items).inserted(extra) == m.inserted_all(items),
{
    assert forall|i: int| 0 <= i < items.len() implies #[trigger] m.inserted_all(items.take(i)).accepts() by {
        lemma_inserted_all_counts(m, items.take(i));
    }
    lemma_inserted_all_counts(m, items);
}

/// Deterministic indexing: the position that a round picks for an item
/// depends on the item, the round, the number of bits and the byte order
/// alone, and lies below the number of bits.
pub proof fn lemma_index_deterministic(a: FilterModel, b: FilterModel, item: Seq<char>, round: int)
    requires
        a.wf(),
        b.wf(),
        a.number_of_bits == b.number_of_bits,
        a.little_endian == b.little_endian,
        0 <= round,
    ensures
        a.index(item, round) == b.index(item, round),
        0 <= a.index(item, round) < a.number_of_bits,
{
}

/// Round trip of the framed state: on a machine of the byte order that a
/// filter was built under, parts that frame it are accepted and describe
/// that same filter, so every query answers as before.
pub proof fn lemma_parts_round_trip(m: FilterModel, parts: FilterParts)
    requires
        m.wf(),
        m.little_endian == machine_little_endian(),
        parts.frames(m),
    ensures
        parts.format_error() is None,
        parts.model() == m,
        forall|item: Seq<char>| #[trigger] parts.model().might_contain(item) == m.might_contain(item),
{
    assert forall|p: int| 0 <= p < m.number_of_bits implies #[trigger] parts.model().bits[p] == m.bits[p] by {
        assert(8 * parts.packed_bits@.len() > m.number_of_bits);
        assert(crate::model::packed_flag(parts.packed_bits@, p) == (p < m.number_of_bits && m.bits[p]));
    }
    assert(parts.model().bits =~= m.bits);
}

/// Boundary rejection: a capacity of 0 is refused whatever the probability,
/// and with a positive capacity the probabilities 0 and 1 are refused.
pub proof fn lemma_boundary_rejection(items_count: u32, given: Option<u32>)
    ensures
        configuration_error(0, given) == Some(ConfigurationError::ZeroCapacity),
        items_count > 0 ==> configuration_error(items_count, Some(0u32)) == Some(
            ConfigurationError::InvalidFalsePositiveRate,
        ),
        items_count > 0 ==> configuration_error(items_count, Some(PROBABILITY_ONE_BITS)) == Some(
            ConfigurationError::InvalidFalsePositiveRate,
        ),
{
}

/// A filter that nothing was inserted into answers `false` to every query.
pub proof fn lemma_fresh_contains_nothing(
    false_positive_probability: u32,
    number_of_bits: nat,
    items_count: nat,
    number_of_hashes: nat,
    little_endian: bool,
    item: Seq<char>,
)
    requires
        FilterModel::fresh(false_positive_probability, number_of_bits, items_count, number_of_hashes, little_endian).wf(),
    ensures
        !FilterModel::fresh(false_positive_probability, number_of_bits, items_count, number_of_hashes, little_endian).might_contain(
            item,
        ),
{
    let m = FilterModel::fresh(false_positive_probability, number_of_bits, items_count, number_of_hashes, little_endian);
    assert(!m.bits[m.index(item, 0)]);
}

} // verus!
