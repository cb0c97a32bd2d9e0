use vanity_key::validator::{validate_key, year_tag_byte};

fn key_with(b28: u8, b29: u8, b30: u8, b31: u8) -> Vec<u8> {
    let mut k = vec![0xAAu8; 32];
    k[28] = b28;
    k[29] = b29;
    k[30] = b30;
    k[31] = b31;
    k
}

#[test]
fn accepts_configured_year_and_the_year_before() {
    assert!(validate_key(&key_with(0x08, 0x3e, 0x05, 0x26), 0x26));
    assert!(validate_key(&key_with(0x08, 0x3e, 0x05, 0x25), 0x26));
    assert!(!validate_key(&key_with(0x08, 0x3e, 0x05, 0x24), 0x26));
    assert!(!validate_key(&key_with(0x08, 0x3e, 0x05, 0x27), 0x26));
}

#[test]
fn year_zero_has_no_predecessor() {
    assert!(validate_key(&key_with(0x08, 0x3e, 0x05, 0x00), 0x00));
    assert!(!validate_key(&key_with(0x08, 0x3e, 0x05, 0xff), 0x00));
}

#[test]
fn marker_byte_is_required() {
    assert!(!validate_key(&key_with(0x08, 0x3f, 0x05, 0x26), 0x26));
    assert!(!validate_key(&key_with(0x08, 0x00, 0x05, 0x26), 0x26));
}

#[test]
fn low_nibble_of_byte_28_is_required() {
    assert!(validate_key(&key_with(0xf8, 0x3e, 0x05, 0x26), 0x26));
    assert!(!validate_key(&key_with(0x07, 0x3e, 0x05, 0x26), 0x26));
    assert!(!validate_key(&key_with(0x80, 0x3e, 0x05, 0x26), 0x26));
}

#[test]
fn month_boundary_table() {
    for m in 0x00u8..=0x2f {
        let expected = (0x01..=0x09).contains(&m) || (0x10..=0x12).contains(&m);
        assert_eq!(validate_key(&key_with(0x08, 0x3e, m, 0x26), 0x26), expected, "month {:#x}", m);
    }
    assert!(!validate_key(&key_with(0x08, 0x3e, 0x00, 0x26), 0x26));
    assert!(validate_key(&key_with(0x08, 0x3e, 0x01, 0x26), 0x26));
    assert!(validate_key(&key_with(0x08, 0x3e, 0x09, 0x26), 0x26));
    assert!(!validate_key(&key_with(0x08, 0x3e, 0x0a, 0x26), 0x26));
    assert!(!validate_key(&key_with(0x08, 0x3e, 0x0f, 0x26), 0x26));
    assert!(validate_key(&key_with(0x08, 0x3e, 0x10, 0x26), 0x26));
    assert!(validate_key(&key_with(0x08, 0x3e, 0x12, 0x26), 0x26));
    assert!(!validate_key(&key_with(0x08, 0x3e, 0x13, 0x26), 0x26));
    assert!(!validate_key(&key_with(0x08, 0x3e, 0x1f, 0x26), 0x26));
}

#[test]
fn validator_is_deterministic() {
    let key = key_with(0x18, 0x3e, 0x11, 0x25);
    let first = validate_key(&key, 0x26);
    for _ in 0..100 {
        assert_eq!(validate_key(&key.clone(), 0x26), first);
    }
    assert!(first);
}

#[test]
fn year_tag_reads_as_hex() {
    assert_eq!(year_tag_byte(b"26"), Some(0x26));
    assert_eq!(year_tag_byte(b"2026"), Some(0x20));
    assert_eq!(year_tag_byte(b"Ab"), Some(0xab));
    assert_eq!(year_tag_byte(b""), None);
    assert_eq!(year_tag_byte(b"2"), None);
    assert_eq!(year_tag_byte(b"2g"), None);
}
