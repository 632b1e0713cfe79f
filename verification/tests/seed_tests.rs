use alchimera::seed::WorldSeed;

#[test]
fn same_inputs_derive_same_child_seed() {
    let seed = WorldSeed::new(12_345);

    let a = seed.derive_child("chunk.objects", &[4, -2], 17);
    let b = seed.derive_child("chunk.objects", &[4, -2], 17);

    assert_eq!(a, b);
}

#[test]
fn different_labels_derive_different_child_seeds() {
    let seed = WorldSeed::new(12_345);

    let objects = seed.derive_child("chunk.objects", &[4, -2], 17);
    let terrain = seed.derive_child("chunk.terrain", &[4, -2], 17);

    assert_ne!(objects, terrain);
}

#[test]
fn different_indices_derive_different_child_seeds() {
    let seed = WorldSeed::new(12_345);

    let first = seed.derive_child("chunk.objects", &[4, -2], 17);
    let second = seed.derive_child("chunk.objects", &[4, -2], 18);

    assert_ne!(first, second);
}

#[test]
fn child_seed_can_be_used_as_u64() {
    let seed = WorldSeed::new(12_345);

    let child = seed.derive_child("chunk.objects", &[0, 0], 0);

    assert_ne!(child.as_u64(), 0);
}

fn fnv1a(bytes: &[u8]) -> u64 {
    let mut hash: u64 = 0xcbf2_9ce4_8422_2325;
    for byte in bytes {
        hash ^= u64::from(*byte);
        hash = hash.wrapping_mul(0x0000_0100_0000_01b3);
    }
    hash
}

#[test]
fn child_seed_is_fnv1a_of_seed_label_coordinates_and_index() {
    let mut bytes = Vec::new();
    bytes.extend_from_slice(&7u64.to_le_bytes());
    bytes.extend_from_slice(b"a");
    bytes.extend_from_slice(&1u64.to_le_bytes());
    bytes.extend_from_slice(&(-1i64 as u64).to_le_bytes());
    bytes.extend_from_slice(&3u64.to_le_bytes());

    let child = WorldSeed::new(7).derive_child("a", &[-1], 3);

    assert_eq!(child.as_u64(), fnv1a(&bytes));
}
