//! Statistics over generated key material.

use vstd::prelude::*;
use vstd::multiset::group_multiset_axioms;
use vstd::seq_lib::to_multiset_build;
use vstd::std_specs::hash::group_hash_axioms;
use std::collections::HashMap;

verus! {

/// How often `byte` occurs in `data`.
pub open spec fn occurrences(data: Seq<u8>, byte: u8) -> nat {
    data.to_multiset().count(byte)
}

/// `counts` maps every byte that occurs in `data`, and no other, to the
/// number of its occurrences.
pub open spec fn counts_bytes_of(counts: Map<u8, usize>, data: Seq<u8>) -> bool {
    &&& forall|byte: u8| #[trigger] counts.contains_key(byte) <==> occurrences(data, byte) > 0
    &&& forall|byte: u8| #[trigger]
        counts.contains_key(byte) ==> counts[byte] == occurrences(data, byte)
}

/// Counts how often each byte value occurs in `data`.
pub fn count_ascii_occurrences(data: &[u8]) -> (counts: HashMap<u8, usize>)
    ensures
        counts_bytes_of(counts@, data@),
{
    broadcast use {group_hash_axioms, group_multiset_axioms};

    let mut counts: HashMap<u8, usize> = HashMap::new();
    let mut i: usize = 0;
    proof {
        data@.take(0).to_multiset_ensures();
        assert forall|byte: u8| occurrences(data@.take(0), byte) == 0 by {
            assert(occurrences(data@.take(0), byte) <= data@.take(0).to_multiset().len());
        }
    }
    while i < data.len()
        invariant
            i <= data@.len(),
            counts_bytes_of(counts@, data@.take(i as int)),
        decreases data@.len() - i,
    {
        let byte: u8 = data[i];
        let ghost seen_part = data@.take(i as int);
        let seen: usize = match counts.get(&byte) {
            Some(count) => *count,
            None => 0,
        };
        proof {
            assert(data@.take(i + 1) =~= seen_part.push(byte));
            to_multiset_build(seen_part, byte);
            seen_part.to_multiset_ensures();
            assert(seen == occurrences(seen_part, byte));
            assert(occurrences(seen_part, byte) <= seen_part.to_multiset().len());
            assert forall|other: u8|
                occurrences(seen_part.push(byte), other) == occurrences(seen_part, other) + if other
                    == byte {
                    1nat
                } else {
                    0nat
                } by {
                assert(seen_part.to_multiset().insert(byte).count(other) == occurrences(
                    seen_part,
                    other,
                ) + if other == byte {
                    1nat
                } else {
                    0nat
                });
            }
        }
        counts.insert(byte, seen + 1);
        i += 1;
    }
    assert(data@.take(i as int) =~= data@);
    counts
}

/// The number of byte values.
pub const BYTE_VALUES: usize = 256;

/// The count that `counts` holds for `byte`: none for a byte that is not a
/// key.
pub open spec fn count_of(counts: Map<u8, usize>, byte: u8) -> nat {
    if counts.contains_key(byte) {
        counts[byte] as nat
    } else {
        0
    }
}

/// The sum of the counts of all byte values below `limit`.
pub open spec fn total_below(counts: Map<u8, usize>, limit: nat) -> nat
    decreases limit,
{
    if limit == 0 {
        0
    } else {
        total_below(counts, (limit - 1) as nat) + count_of(counts, (limit - 1) as u8)
    }
}

/// The sum of all counts.
pub open spec fn total_count(counts: Map<u8, usize>) -> nat {
    total_below(counts, BYTE_VALUES as nat)
}

/// The figures of a report on key material.
#[derive(PartialEq, Eq, Debug)]
pub struct KeyReport {
    /// For each byte value, how often it occurs.
    pub per_byte: Vec<usize>,
    /// How many byte values occur at all.
    pub unique: usize,
    /// How many bytes were counted.
    pub actual: usize,
    /// How many bytes were to be generated.
    pub expected: usize,
}

impl KeyReport {
    /// The report says what `counts` holds, and what was expected.
    pub open spec fn describes(&self, counts: Map<u8, usize>, expected: usize) -> bool {
        &&& self.per_byte@.len() == BYTE_VALUES
        &&& forall|byte: u8| #[trigger] self.per_byte@[byte as int] == count_of(counts, byte)
        &&& self.unique == counts.len()
        &&& self.actual == total_count(counts)
        &&& self.expected == expected
    }

    /// Whether as many bytes were counted as were to be generated.
    pub fn matches_expected(&self) -> (matches: bool)
        ensures
            matches == (self.actual == self.expected),
    {
        self.actual == self.expected
    }

    /// Whether every byte value occurs.
    pub fn all_present(&self) -> (all: bool)
        ensures
            all == (self.unique >= BYTE_VALUES),
    {
        self.unique >= BYTE_VALUES
    }
}

/// Gathers the figures of a report from the counts of the byte values.
pub fn analyze(counts: &HashMap<u8, usize>, expected_bytes: usize) -> (report: KeyReport)
    requires
        total_count(counts@) <= usize::MAX,
    ensures
        report.describes(counts@, expected_bytes),
{
    broadcast use group_hash_axioms;

    let mut per_byte: Vec<usize> = Vec::with_capacity(BYTE_VALUES);
    let mut actual: usize = 0;
    let mut value: usize = 0;
    while value < BYTE_VALUES
        invariant
            value <= BYTE_VALUES,
            per_byte@.len() == value,
            forall|byte: u8|
                byte < value ==> #[trigger] per_byte@[byte as int] == count_of(counts@, byte),
            actual == total_below(counts@, value as nat),
            total_count(counts@) <= usize::MAX,
        decreases BYTE_VALUES - value,
    {
        let byte: u8 = value as u8;
        let count: usize = match counts.get(&byte) {
            Some(count) => *count,
            None => 0,
        };
        proof {
            assert(count == count_of(counts@, byte));
            lemma_total_below_grows(counts@, (value + 1) as nat, BYTE_VALUES as nat);
        }
        per_byte.push(count);
        actual = actual + count;
        value += 1;
    }
    KeyReport { per_byte, unique: counts.len(), actual, expected: expected_bytes }
}

/// Counts the byte values of `data` and gathers the figures of a report.
pub fn key_report(data: &[u8], expected_bytes: usize) -> (report: KeyReport)
    ensures
        report.per_byte@.len() == BYTE_VALUES,
        forall|byte: u8| #[trigger] report.per_byte@[byte as int] == occurrences(data@, byte),
        report.unique == data@.to_set().len(),
        report.actual == data@.len(),
        report.expected == expected_bytes,
{
    let counts: HashMap<u8, usize> = count_ascii_occurrences(data);
    proof {
        lemma_total_is_length(counts@, data@);
        assert(data@.len() == data.len());
        data@.to_multiset_ensures();
        assert(counts@.dom() =~= data@.to_set());
    }
    analyze(&counts, expected_bytes)
}

/// The sum of the counts grows with the limit.
pub proof fn lemma_total_below_grows(counts: Map<u8, usize>, low: nat, high: nat)
    requires
        low <= high,
    ensures
        total_below(counts, low) <= total_below(counts, high),
    decreases high,
{
    if low < high {
        lemma_total_below_grows(counts, low, (high - 1) as nat);
    }
}

/// The number of bytes of `data` whose value is below `limit`.
pub open spec fn bytes_below(data: Seq<u8>, limit: nat) -> nat
    decreases limit,
{
    if limit == 0 {
        0
    } else {
        bytes_below(data, (limit - 1) as nat) + occurrences(data, (limit - 1) as u8)
    }
}

proof fn lemma_bytes_below_push(data: Seq<u8>, byte: u8, limit: nat)
    requires
        limit <= BYTE_VALUES,
    ensures
        bytes_below(data.push(byte), limit) == bytes_below(data, limit) + if byte < limit {
            1nat
        } else {
            0nat
        },
    decreases limit,
{
    broadcast use group_multiset_axioms;

    if limit > 0 {
        lemma_bytes_below_push(data, byte, (limit - 1) as nat);
        to_multiset_build(data, byte);
        let value = (limit - 1) as u8;
        assert(data.to_multiset().insert(byte).count(value) == data.to_multiset().count(value)
            + if value == byte {
            1nat
        } else {
            0nat
        });
    }
}

/// Every byte has a value, so the counts of all values add up to the
/// number of bytes.
pub proof fn lemma_bytes_below_all(data: Seq<u8>)
    ensures
        bytes_below(data, BYTE_VALUES as nat) == data.len(),
    decreases data.len(),
{
    broadcast use group_multiset_axioms;

    if data.len() == 0 {
        data.to_multiset_ensures();
        lemma_bytes_below_none(data, BYTE_VALUES as nat);
    } else {
        let front = data.drop_last();
        assert(data =~= front.push(data.last()));
        lemma_bytes_below_all(front);
        lemma_bytes_below_push(front, data.last(), BYTE_VALUES as nat);
    }
}

proof fn lemma_bytes_below_none(data: Seq<u8>, limit: nat)
    requires
        data.to_multiset().len() == 0,
    ensures
        bytes_below(data, limit) == 0,
    decreases limit,
{
    broadcast use group_multiset_axioms;

    if limit > 0 {
        lemma_bytes_below_none(data, (limit - 1) as nat);
        assert(occurrences(data, (limit - 1) as u8) <= data.to_multiset().len());
    }
}

proof fn lemma_total_matches(counts: Map<u8, usize>, data: Seq<u8>, limit: nat)
    requires
        counts_bytes_of(counts, data),
        limit <= BYTE_VALUES,
    ensures
        total_below(counts, limit) == bytes_below(data, limit),
    decreases limit,
{
    if limit > 0 {
        lemma_total_matches(counts, data, (limit - 1) as nat);
        let value = (limit - 1) as u8;
        assert(counts.contains_key(value) <==> occurrences(data, value) > 0);
    }
}

/// Counts of the bytes of `data` add up to the length of `data`.
pub proof fn lemma_total_is_length(counts: Map<u8, usize>, data: Seq<u8>)
    requires
        counts_bytes_of(counts, data),
    ensures
        total_count(counts) == data.len(),
{
    lemma_total_matches(counts, data, BYTE_VALUES as nat);
    lemma_bytes_below_all(data);
}

} // verus!
