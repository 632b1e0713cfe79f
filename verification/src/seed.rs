//! Seed domain types and deterministic seed derivation.

use vstd::prelude::*;
use vstd::string::StringSliceAdditionalSpecFns;

verus! {

/// FNV-1a 64-bit offset basis.
pub const FNV_OFFSET_BASIS: u64 = 0xcbf2_9ce4_8422_2325;

/// FNV-1a 64-bit prime.
pub const FNV_PRIME: u64 = 0x0000_0100_0000_01b3;

/// One FNV-1a step: xor the byte into the hash, then multiply by the prime modulo 2^64.
pub open spec fn fnv_step(hash: u64, byte: u8) -> u64 {
    (hash ^ (byte as u64)).wrapping_mul(FNV_PRIME)
}

/// FNV-1a folded over a byte sequence, starting from `hash`.
pub open spec fn fnv_mix(hash: u64, bytes: Seq<u8>) -> u64
    decreases bytes.len(),
{
    if bytes.len() == 0 {
        hash
    } else {
        fnv_step(fnv_mix(hash, bytes.drop_last()), bytes.last())
    }
}

/// The eight little-endian bytes of a 64-bit word.
pub open spec fn le_bytes(value: u64) -> Seq<u8> {
    Seq::new(8, |i: int| ((value >> ((8 * i) as u64)) & 0xff) as u8)
}

/// A signed coordinate widened to a 64-bit word by sign extension.
pub open spec fn coordinate_word(coordinate: i32) -> u64 {
    (coordinate as i64) as u64
}

/// FNV-1a folded over the little-endian words of each coordinate, in order.
pub open spec fn mix_coordinates(hash: u64, coordinates: Seq<i32>) -> u64
    decreases coordinates.len(),
{
    if coordinates.len() == 0 {
        hash
    } else {
        fnv_mix(
            mix_coordinates(hash, coordinates.drop_last()),
            le_bytes(coordinate_word(coordinates.last())),
        )
    }
}

/// The child seed derived from a parent seed, a label (as UTF-8 bytes), a signed
/// coordinate path and a local index.
pub open spec fn derived_child(seed: u64, label: Seq<u8>, coordinates: Seq<i32>, index: u64) -> u64 {
    let after_seed = fnv_mix(FNV_OFFSET_BASIS, le_bytes(seed));
    let after_label = fnv_mix(after_seed, label);
    let after_len = fnv_mix(after_label, le_bytes(coordinates.len() as u64));
    let after_coordinates = mix_coordinates(after_len, coordinates);
    fnv_mix(after_coordinates, le_bytes(index))
}

/// The bytes of a coordinate path: each coordinate's little-endian word, in order.
pub open spec fn coordinate_bytes(coordinates: Seq<i32>) -> Seq<u8> {
    coordinates.map_values(|c: i32| le_bytes(coordinate_word(c))).flatten()
}

/// The byte string a child seed hashes: the parent seed's word, the label's bytes,
/// the path length's word, every coordinate's word in order, and the index's word.
pub open spec fn child_seed_input(seed: u64, label: Seq<u8>, coordinates: Seq<i32>, index: u64) -> Seq<u8> {
    le_bytes(seed) + label + le_bytes(coordinates.len() as u64) + coordinate_bytes(coordinates) + le_bytes(index)
}

/// Hashing a concatenation hashes the second part from where the first ended.
proof fn lemma_fnv_mix_concat(hash: u64, a: Seq<u8>, b: Seq<u8>)
    ensures
        fnv_mix(hash, a + b) == fnv_mix(fnv_mix(hash, a), b),
    decreases b.len(),
{
    if b.len() > 0 {
        lemma_fnv_mix_concat(hash, a, b.drop_last());
        assert((a + b).drop_last() =~= a + b.drop_last());
        assert((a + b).last() == b.last());
    } else {
        assert(a + b =~= a);
    }
}

/// Mixing a coordinate path hashes every coordinate's bytes.
proof fn lemma_mix_coordinates_bytes(hash: u64, coordinates: Seq<i32>)
    ensures
        mix_coordinates(hash, coordinates) == fnv_mix(hash, coordinate_bytes(coordinates)),
    decreases coordinates.len(),
{
    let words = coordinates.map_values(|c: i32| le_bytes(coordinate_word(c)));
    if coordinates.len() > 0 {
        let rest = coordinates.drop_last();
        lemma_mix_coordinates_bytes(hash, rest);
        let rest_words = rest.map_values(|c: i32| le_bytes(coordinate_word(c)));
        assert(words =~= rest_words.push(le_bytes(coordinate_word(coordinates.last()))));
        rest_words.lemma_flatten_push(le_bytes(coordinate_word(coordinates.last())));
        lemma_fnv_mix_concat(hash, coordinate_bytes(rest), le_bytes(coordinate_word(coordinates.last())));
    } else {
        assert(words =~= Seq::<Seq<u8>>::empty());
        assert(coordinate_bytes(coordinates) =~= Seq::<u8>::empty());
    }
}

/// A child seed is FNV-1a, from the offset basis, over the whole byte string of its
/// inputs: the parent seed, the label, the path length, every coordinate of the
/// path in order, and the index.
pub proof fn law_child_seed_hashes_every_input(seed: u64, label: Seq<u8>, coordinates: Seq<i32>, index: u64)
    ensures
        derived_child(seed, label, coordinates, index) == fnv_mix(FNV_OFFSET_BASIS, child_seed_input(seed, label, coordinates, index)),
{
    let a = le_bytes(seed);
    let b = le_bytes(coordinates.len() as u64);
    let c = coordinate_bytes(coordinates);
    let d = le_bytes(index);
    lemma_fnv_mix_concat(FNV_OFFSET_BASIS, a, label);
    lemma_fnv_mix_concat(FNV_OFFSET_BASIS, a + label, b);
    lemma_mix_coordinates_bytes(fnv_mix(FNV_OFFSET_BASIS, a + label + b), coordinates);
    lemma_fnv_mix_concat(FNV_OFFSET_BASIS, a + label + b, c);
    lemma_fnv_mix_concat(FNV_OFFSET_BASIS, a + label + b + c, d);
}

/// Root seed for deterministic world generation.
#[derive(Debug, Clone, Copy, PartialEq, Eq, Hash)]
pub struct WorldSeed(u64);

impl WorldSeed {
    /// The raw value of the seed.
    pub closed spec fn value(self) -> u64 {
        self.0
    }

    /// Creates a world seed from a raw `u64`.
    pub fn new(seed: u64) -> (r: Self)
        ensures
            r.value() == seed,
    {
        WorldSeed(seed)
    }

    /// Returns the raw seed value.
    pub fn as_u64(self) -> (r: u64)
        ensures
            r == self.value(),
    {
        self.0
    }

    /// Derives a deterministic child seed from a label, signed coordinate path, and local index.
    ///
    /// This uses an explicit FNV-1a mixer, so the result is stable across processes and platforms.
    pub fn derive_child(self, label: &str, coordinates: &[i32], index: u64) -> (r: Self)
        ensures
            r.value() == derived_child(self.value(), label.spec_bytes(), coordinates@, index),
    {
        let mut hash = FNV_OFFSET_BASIS;
        hash = mix_u64(hash, self.0);
        hash = mix_bytes(hash, label.as_bytes());
        hash = mix_u64(hash, coordinates.len() as u64);
        let ghost after_len = hash;
        let mut i: usize = 0;
        while i < coordinates.len()
            invariant
                i <= coordinates@.len(),
                hash == mix_coordinates(after_len, coordinates@.take(i as int)),
            decreases coordinates@.len() - i,
        {
            assert(coordinates@.take(i + 1).drop_last() =~= coordinates@.take(i as int));
            hash = mix_u64(hash, coordinates[i] as i64 as u64);
            i = i + 1;
        }
        assert(coordinates@.take(coordinates@.len() as int) =~= coordinates@);
        hash = mix_u64(hash, index);
        WorldSeed(hash)
    }
}

fn mix_bytes(hash: u64, bytes: &[u8]) -> (r: u64)
    ensures
        r == fnv_mix(hash, bytes@),
{
    let mut h = hash;
    let mut i: usize = 0;
    while i < bytes.len()
        invariant
            i <= bytes@.len(),
            h == fnv_mix(hash, bytes@.take(i as int)),
        decreases bytes@.len() - i,
    {
        assert(bytes@.take(i + 1).drop_last() =~= bytes@.take(i as int));
        h = (h ^ (bytes[i] as u64)).wrapping_mul(FNV_PRIME);
        i = i + 1;
    }
    assert(bytes@.take(bytes@.len() as int) =~= bytes@);
    h
}

fn mix_u64(hash: u64, value: u64) -> (r: u64)
    ensures
        r == fnv_mix(hash, le_bytes(value)),
{
    let mut h = hash;
    let mut i: u64 = 0;
    while i < 8
        invariant
            i <= 8,
            h == fnv_mix(hash, le_bytes(value).take(i as int)),
        decreases 8 - i,
    {
        assert(le_bytes(value).take(i + 1).drop_last() =~= le_bytes(value).take(i as int));
        let byte = ((value >> (8 * i)) & 0xff) as u8;
        h = (h ^ (byte as u64)).wrapping_mul(FNV_PRIME);
        i = i + 1;
    }
    assert(le_bytes(value).take(8) =~= le_bytes(value));
    h
}

} // verus!
