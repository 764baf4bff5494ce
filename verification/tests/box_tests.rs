use present::{PBox, SBox};

#[test]
fn test_that_sbox_gives_correct_outputs() {
    let s_box = SBox::new();
    assert_eq!(s_box.apply_enc(0), 12);
    assert_eq!(s_box.apply_enc(1), 5);
    assert_eq!(s_box.apply_enc(2), 6);
    assert_eq!(s_box.apply_enc(3), 11);
    assert_eq!(s_box.apply_enc(4), 9);
    assert_eq!(s_box.apply_enc(5), 0);
    assert_eq!(s_box.apply_enc(6), 10);
    assert_eq!(s_box.apply_enc(7), 13);
    assert_eq!(s_box.apply_enc(8), 3);
    assert_eq!(s_box.apply_enc(9), 14);
    assert_eq!(s_box.apply_enc(10), 15);
    assert_eq!(s_box.apply_enc(11), 8);
    assert_eq!(s_box.apply_enc(12), 4);
    assert_eq!(s_box.apply_enc(13), 7);
    assert_eq!(s_box.apply_enc(14), 1);
    assert_eq!(s_box.apply_enc(15), 2);
}

#[test]
fn test_that_inverse_sbox_gives_correct_outputs() {
    let s_box = SBox::new();
    assert_eq!(s_box.apply_dec(0), 5);
    assert_eq!(s_box.apply_dec(1), 14);
    assert_eq!(s_box.apply_dec(2), 15);
    assert_eq!(s_box.apply_dec(3), 8);
    assert_eq!(s_box.apply_dec(4), 12);
    assert_eq!(s_box.apply_dec(5), 1);
    assert_eq!(s_box.apply_dec(6), 2);
    assert_eq!(s_box.apply_dec(7), 13);
    assert_eq!(s_box.apply_dec(8), 11);
    assert_eq!(s_box.apply_dec(9), 4);
    assert_eq!(s_box.apply_dec(10), 6);
    assert_eq!(s_box.apply_dec(11), 3);
    assert_eq!(s_box.apply_dec(12), 0);
    assert_eq!(s_box.apply_dec(13), 7);
    assert_eq!(s_box.apply_dec(14), 9);
    assert_eq!(s_box.apply_dec(15), 10);
}

#[test]
fn test_that_pbox_gives_correct_outputs() {
    // Test conversion 0x1A6E7639E6166 -> 0xA30079B0FDB1164
    let p_box = PBox::new();
    assert_eq!(p_box.apply_enc(0x1A6E7639E6166_u64), 0xA30079B0FDB1164_u64);
    assert_eq!(p_box.apply_dec(0xA30079B0FDB1164_u64), 0x1A6E7639E6166_u64);
}

#[test]
fn test_sbox_involution() {
    let s_box = SBox::new();
    for n in 0..16u8 {
        assert_eq!(s_box.apply_dec(s_box.apply_enc(n)), n);
        assert_eq!(s_box.apply_enc(s_box.apply_dec(n)), n);
    }
}

#[test]
fn test_pbox_fixed_points() {
    let p_box = PBox::new();
    assert_eq!(p_box.apply_enc(1u64 << 0), 1u64 << 0);
    assert_eq!(p_box.apply_enc(1u64 << 21), 1u64 << 21);
    assert_eq!(p_box.apply_enc(1u64 << 42), 1u64 << 42);
    assert_eq!(p_box.apply_enc(1u64 << 63), 1u64 << 63);
}

#[test]
fn test_pbox_involution() {
    let p_box = PBox::new();
    let values = [0u64, 1, 0x0123456789ABCDEF, 0xFFFFFFFFFFFFFFFF, 0xDEADBEEFCAFEBABE];
    for v in values {
        assert_eq!(p_box.apply_dec(p_box.apply_enc(v)), v);
        assert_eq!(p_box.apply_enc(p_box.apply_dec(v)), v);
    }
}
