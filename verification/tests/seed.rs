use minimal_id::Seed;

#[test]
fn functional_seed_to_slice() {
    let seed = Seed::new(10 << 24 | 20 << 16 | 30 << 8 | 40);
    let slc = seed.as_slice();
    assert_eq!(slc.get(0), Some(&10));
    assert_eq!(slc.get(1), Some(&20));
    assert_eq!(slc.get(2), Some(&30));
    assert_eq!(slc.get(3), Some(&40));
}

#[test]
fn seed_encoding_is_big_endian() {
    let seed = Seed::new(0x0A141E28);
    assert_eq!(seed.as_slice(), [0x0A, 0x14, 0x1E, 0x28]);
}
