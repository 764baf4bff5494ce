use present::{Key, Key128Bit, Key80Bit};

#[test]
fn test_round_key_generation_80bit() {
    // Create a key with the following hex representation:
    // 0xAC0A6E76326BC7E8280
    let key = Key80Bit::new([0xA, 0xC0, 0xA6, 0xE7, 0x63, 0x26, 0xBC, 0x7E, 0x82, 0x80]);
    let round_keys = key.generate_round_keys();
    assert_eq!(round_keys[0].value, 0xAC0A6E76326BC7E_u64);
    assert_eq!(round_keys[1].value, 0x7050015814DCEC64_u64);
    assert_eq!(round_keys[2].value, 0x3AF1EE0A002B029A_u64);
}

#[test]
fn test_round_key_generation_128bit() {
    let key = Key128Bit::new([
        0xA, 0xC0, 0xA6, 0xE7, 0x63, 0x26, 0xBC, 0x7E, 0x82, 0x80, 0x12, 0xAA, 0x5F, 0xDF, 0x39,
        0x25,
    ]);
    let round_keys = key.generate_round_keys();
    assert_eq!(round_keys[0].value, 0xAC0A6E76326BC7E_u64);
    assert_eq!(round_keys[1].value, 0x7C5002554BFBE724_u64);
    assert_eq!(round_keys[2].value, 0xE42B029B9D8C9AF1_u64);
}
