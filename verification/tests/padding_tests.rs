use present::{add_padding, blocks_to_bytes, check_padding, Block};

#[test]
fn test_add_padding_to_block() {
    let mut bytes = [0x01, 0x23, 0x45, 0x67, 0x89, 0xAB, 0xCD, 0xEF];
    add_padding(&mut bytes, 4);
    assert_eq!(bytes, [0x01, 0x23, 0x45, 0x67, 0x04, 0x04, 0x04, 0x04]);

    add_padding(&mut bytes, 1);
    assert_eq!(bytes, [0x01, 0x23, 0x45, 0x67, 0x04, 0x04, 0x04, 0x01]);

    add_padding(&mut bytes, 8);
    assert_eq!(bytes, [0x08; 8]);
}

#[test]
fn test_check_padding_returns_correct_values() {
    let bytes = [0x4E, 0xDD, 0xA0, 0x34, 0x04, 0x04, 0x04, 0x04];
    assert_eq!(check_padding(&bytes).unwrap(), 4);

    let bytes = [0x4E, 0xDD, 0xA0, 0x34, 0x04, 0x03, 0x03, 0x03];
    assert_eq!(check_padding(&bytes).unwrap(), 3);

    let bytes = [0x4E, 0xDD, 0xA0, 0x34, 0xBC, 0xE5, 0xA2, 0x01];
    assert_eq!(check_padding(&bytes).unwrap(), 1);

    let bytes = [0x08, 0x08, 0x08, 0x08, 0x08, 0x08, 0x08, 0x08];
    assert_eq!(check_padding(&bytes).unwrap(), 8);
}

#[test]
#[should_panic]
fn test_check_padding_rejects_invalid_slices() {
    let bytes = [0x34, 0x14];
    check_padding(&bytes).unwrap();
}

#[test]
#[should_panic]
fn test_check_padding_rejects_invalid_padding() {
    let bytes = [0x09, 0x09, 0x09, 0x09, 0x09, 0x09, 0x09, 0x09];
    check_padding(&bytes).unwrap();
}

#[test]
#[should_panic]
fn test_check_padding_rejects_wrong_padding() {
    let bytes = [0x35, 0xD2, 0x39, 0xE5, 0xAA, 0x04, 0x03, 0x03];
    check_padding(&bytes).unwrap();
}

#[test]
fn test_blocks_to_bytes() {
    let blocks = vec![Block::new(0x0123456789ABCDEF_u64), Block::new(0xFEDCBA9876543210_u64)];
    let bytes = blocks_to_bytes(blocks);
    assert_eq!(bytes[0], 0x01);
    assert_eq!(bytes[5], 0xAB);
    assert_eq!(bytes[8], 0xFE);
    assert_eq!(bytes[15], 0x10);
}
