use present::{decrypt_str, encrypt_str, Block, DecryptError, Key80Bit, OpMode};

#[test]
fn test_encryption_ecb() {
    let key = Key80Bit::new([0xA, 0xC0, 0xA6, 0xE7, 0x63, 0x26, 0xBC, 0x7E, 0x82, 0x80]);
    let op_mode = OpMode::ECB;

    let to_encrypt = "this is a test string →in UTF8←";
    let (encrypted, iv) = encrypt_str(to_encrypt, &key, &op_mode);
    assert_eq!(encrypted.len(), 40);
    assert!(iv.is_none());
    let decrypt_result = decrypt_str(&encrypted, &key, &op_mode, None);
    assert_eq!(decrypt_result.unwrap(), to_encrypt);

    let to_encrypt = "ö";
    let (encrypted, iv) = encrypt_str(to_encrypt, &key, &op_mode);
    assert_eq!(encrypted.len(), 8);
    assert!(iv.is_none());
    let decrypt_result = decrypt_str(&encrypted, &key, &op_mode, None);
    assert_eq!(decrypt_result.unwrap(), to_encrypt);
}

#[test]
#[should_panic]
fn test_encryption_fails_with_differing_keys_ecb() {
    let to_encrypt = "foo bar baz ²³";
    let (encrypted, _) = encrypt_str(to_encrypt, &Key80Bit::new([0xAB; 10]), &OpMode::ECB);
    let decrypt_result = decrypt_str(&encrypted, &Key80Bit::new([0xAC; 10]), &OpMode::ECB, None);
    assert_eq!(decrypt_result.unwrap(), to_encrypt);
}

#[test]
fn test_encryption_cbc() {
    let key = Key80Bit::new([0xA, 0xC0, 0xA6, 0xE7, 0x63, 0x26, 0xBC, 0x7E, 0x82, 0x80]);
    let op_mode = OpMode::CBC;

    let to_encrypt = "this is a test string →in UTF8←";
    let (encrypted, iv) = encrypt_str(to_encrypt, &key, &op_mode);
    assert_eq!(encrypted.len(), 40);
    assert!(iv.is_some());
    let decrypt_result = decrypt_str(&encrypted, &key, &op_mode, iv);
    assert_eq!(decrypt_result.unwrap(), to_encrypt);

    let to_encrypt = "ö";
    let (encrypted, iv) = encrypt_str(to_encrypt, &key, &op_mode);
    assert_eq!(encrypted.len(), 8);
    assert!(iv.is_some());
    let decrypt_result = decrypt_str(&encrypted, &key, &op_mode, iv);
    assert_eq!(decrypt_result.unwrap(), to_encrypt);
}

#[test]
#[should_panic]
fn test_encryption_fails_with_differing_keys_cbc() {
    let to_encrypt = "foo bar baz ²³";
    let (encrypted, iv) = encrypt_str(to_encrypt, &Key80Bit::new([0xAB; 10]), &OpMode::CBC);
    let decrypt_result = decrypt_str(&encrypted, &Key80Bit::new([0xAC; 10]), &OpMode::CBC, iv);
    assert_eq!(decrypt_result.unwrap(), to_encrypt);
}

#[test]
#[should_panic]
fn test_encryption_fails_with_wrong_iv_cbc() {
    let to_encrypt = "foo bar baz ²³";
    let key = Key80Bit::new([0x23; 10]);
    let (encrypted, _) = encrypt_str(to_encrypt, &key, &OpMode::CBC);
    let decrypt_result = decrypt_str(&encrypted, &key, &OpMode::CBC, Some(Block::new(0u64)));
    assert_eq!(decrypt_result.unwrap(), to_encrypt);
}

#[test]
fn test_cbc_decrypt_without_iv_fails() {
    let key = Key80Bit::new([0xA, 0xC0, 0xA6, 0xE7, 0x63, 0x26, 0xBC, 0x7E, 0x82, 0x80]);
    let (encrypted, iv) = encrypt_str("this is a test string →in UTF8←", &key, &OpMode::CBC);
    assert!(iv.is_some());
    let decrypt_result = decrypt_str(&encrypted, &key, &OpMode::CBC, None);
    assert!(matches!(decrypt_result, Err(DecryptError::InitVecMissing)));
}

#[test]
fn test_ciphertext_too_short() {
    let key = Key80Bit::new([0x42; 10]);
    let cipher = [0u8; 7];
    let r = decrypt_str(&cipher, &key, &OpMode::ECB, None);
    assert!(matches!(r, Err(DecryptError::CiphertextTooShort(7))));
    let r = decrypt_str(&cipher, &key, &OpMode::CBC, Some(Block::new(5u64)));
    assert!(matches!(r, Err(DecryptError::CiphertextTooShort(7))));
}

#[test]
fn test_ciphertext_not_aligned() {
    let key = Key80Bit::new([0x42; 10]);
    let cipher = [0u8; 13];
    let r = decrypt_str(&cipher, &key, &OpMode::ECB, None);
    assert!(matches!(r, Err(DecryptError::CiphertextNotAligned(13))));
    let r = decrypt_str(&cipher, &key, &OpMode::CBC, Some(Block::new(5u64)));
    assert!(matches!(r, Err(DecryptError::CiphertextNotAligned(13))));
}

#[test]
fn test_decrypt_rejects_invalid_padding() {
    // A block whose plaintext ends in 0x00 carries no admissible padding
    // count, so decryption must reject it.
    let key = Key80Bit::new([0xA, 0xC0, 0xA6, 0xE7, 0x63, 0x26, 0xBC, 0x7E, 0x82, 0x80]);
    let mut block = Block::from_bytes(&[0x61, 0x61, 0x61, 0x61, 0x61, 0x61, 0x61, 0x00]);
    block.encrypt(&key);
    let cipher = block.to_bytes().to_vec();
    let r = decrypt_str(&cipher, &key, &OpMode::ECB, None);
    assert!(matches!(r, Err(DecryptError::InvalidPadding)));
}

#[test]
fn test_decrypt_rejects_bad_utf8() {
    // 0xFF can never occur in UTF-8, but the padding byte is fine, so the
    // failure must be the UTF-8 one.
    let key = Key80Bit::new([0xA, 0xC0, 0xA6, 0xE7, 0x63, 0x26, 0xBC, 0x7E, 0x82, 0x80]);
    let mut block = Block::from_bytes(&[0xFF, 0x61, 0x61, 0x61, 0x61, 0x61, 0x61, 0x01]);
    block.encrypt(&key);
    let cipher = block.to_bytes().to_vec();
    let r = decrypt_str(&cipher, &key, &OpMode::ECB, None);
    assert!(matches!(r, Err(DecryptError::Utf8Error)));
}

#[test]
fn test_full_block_plaintext_gains_padding_block() {
    let key = Key80Bit::new([0x17; 10]);
    let to_encrypt = "16 bytes of text";
    let (encrypted, _) = encrypt_str(to_encrypt, &key, &OpMode::ECB);
    assert_eq!(encrypted.len(), 24);
    let decrypt_result = decrypt_str(&encrypted, &key, &OpMode::ECB, None);
    assert_eq!(decrypt_result.unwrap(), to_encrypt);
}

#[test]
fn test_empty_plaintext_round_trip() {
    let key = Key80Bit::new([0x17; 10]);
    let (encrypted, _) = encrypt_str("", &key, &OpMode::ECB);
    assert_eq!(encrypted.len(), 8);
    let decrypt_result = decrypt_str(&encrypted, &key, &OpMode::ECB, None);
    assert_eq!(decrypt_result.unwrap(), "");
}
