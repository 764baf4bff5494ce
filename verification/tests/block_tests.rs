use present::{Block, Key80Bit};

#[test]
fn test_block_init_from_bytes() {
    let block = Block::from_bytes(&[0x01, 0x23, 0x45, 0x67, 0x89, 0xAB, 0xCD, 0xEF]);
    assert_eq!(block.get_state(), 0x0123456789ABCDEF_u64);
}

#[test]
fn test_block_to_bytes() {
    let block = Block::new(0x0123456789ABCDEF_u64);
    assert_eq!(block.to_bytes(), [0x01, 0x23, 0x45, 0x67, 0x89, 0xAB, 0xCD, 0xEF]);
}

#[test]
fn test_correct_sbox_application() {
    let mut block = Block::new(0u64);
    block.apply_substitution_enc();
    assert_eq!(block.get_state(), 0xCCCCCCCCCCCCCCCC_u64);
    block.apply_substitution_dec();
    assert_eq!(block.get_state(), 0u64);

    let mut block = Block::new(0x0123456789ABCDEF_u64);
    block.apply_substitution_enc();
    assert_eq!(block.get_state(), 0xC56B90AD3EF84712_u64);
    block.apply_substitution_dec();
    assert_eq!(block.get_state(), 0x0123456789ABCDEF_u64);
}

#[test]
fn test_correct_pbox_application() {
    let mut block = Block::new(0u64);
    block.apply_permutation_enc();
    assert_eq!(block.get_state(), 0u64);
    block.apply_permutation_dec();
    assert_eq!(block.get_state(), 0u64);

    let mut block = Block::new(0x0123456789ABCDEF);
    block.apply_permutation_enc();
    assert_eq!(block.get_state(), 0x00FF0F0F33335555);
    block.apply_permutation_dec();
    assert_eq!(block.get_state(), 0x0123456789ABCDEF);
}

#[test]
fn test_block_encryption_decryption_80bit_key() {
    // Test block encryption with the test vectors from the paper
    let mut block = Block::new(0u64);
    let key = Key80Bit::new([0u8; 10]);
    block.encrypt(&key);
    assert_eq!(block.get_state(), 0x5579C1387B228445_u64);
    block.decrypt(&key);
    assert_eq!(block.get_state(), 0u64);

    let mut block = Block::new(0u64);
    let key = Key80Bit::new([0xFF_u8; 10]);
    block.encrypt(&key);
    assert_eq!(block.get_state(), 0xE72C46C0F5945049_u64);
    block.decrypt(&key);
    assert_eq!(block.get_state(), 0u64);

    let mut block = Block::new(0xFFFFFFFFFFFFFFFF_u64);
    let key = Key80Bit::new([0u8; 10]);
    block.encrypt(&key);
    assert_eq!(block.get_state(), 0xA112FFC72F68417B_u64);
    block.decrypt(&key);
    assert_eq!(block.get_state(), 0xFFFFFFFFFFFFFFFF_u64);

    let mut block = Block::new(0xFFFFFFFFFFFFFFFF_u64);
    let key = Key80Bit::new([0xFF_u8; 10]);
    block.encrypt(&key);
    assert_eq!(block.get_state(), 0x3333DCD3213210D2_u64);
    block.decrypt(&key);
    assert_eq!(block.get_state(), 0xFFFFFFFFFFFFFFFF_u64);
}
