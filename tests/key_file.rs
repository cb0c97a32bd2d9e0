use vanity_key::key_file::{decode, encode, self_test, KeyFileError, SelfTestError};
use vanity_key::keys::{generate, sign, KeyPair, SignError};

fn fixed_pair() -> KeyPair {
    KeyPair { secret: (0u8..32).collect(), public: (0xe0u8..=0xff).collect() }
}

#[test]
fn encode_writes_four_labelled_lines() {
    let text = String::from_utf8(encode(&fixed_pair())).unwrap();
    let expected = "Secret key:\n\
        000102030405060708090a0b0c0d0e0f101112131415161718191a1b1c1d1e1f\n\
        Public key:\n\
        e0e1e2e3e4e5e6e7e8e9eaebecedeeeff0f1f2f3f4f5f6f7f8f9fafbfcfdfeff\n";
    assert_eq!(text, expected);
}

#[test]
fn decode_reverses_encode_on_fixed_bytes() {
    let kp = fixed_pair();
    let back = decode(&encode(&kp)).unwrap();
    assert_eq!(back.secret, kp.secret);
    assert_eq!(back.public, kp.public);
}

#[test]
fn decode_reverses_encode_on_generated_keys() {
    for _ in 0..16 {
        let kp = generate();
        let back = decode(&encode(&kp)).unwrap();
        assert_eq!(back.secret, kp.secret);
        assert_eq!(back.public, kp.public);
    }
}

#[test]
fn decode_reads_lines_by_position_and_accepts_uppercase() {
    let text = format!("anything\n{}\nelse\n{}", "AB".repeat(32), "cd".repeat(32));
    let kp = decode(text.as_bytes()).unwrap();
    assert_eq!(kp.secret, vec![0xabu8; 32]);
    assert_eq!(kp.public, vec![0xcdu8; 32]);
}

#[test]
fn decode_refuses_short_text() {
    assert_eq!(decode(b"").unwrap_err(), KeyFileError::MissingLines);
    let text = format!("Secret key:\n{}\nPublic key:\n", "00".repeat(32));
    assert_eq!(decode(text.as_bytes()).unwrap_err(), KeyFileError::MissingLines);
}

#[test]
fn decode_refuses_bad_hex() {
    let text = format!("Secret key:\n{}zz\nPublic key:\n{}\n", "00".repeat(31), "00".repeat(32));
    assert_eq!(decode(text.as_bytes()).unwrap_err(), KeyFileError::InvalidHex);
    let odd = format!("Secret key:\n{}0\nPublic key:\n{}\n", "00".repeat(31), "00".repeat(32));
    assert_eq!(decode(odd.as_bytes()).unwrap_err(), KeyFileError::InvalidHex);
}

#[test]
fn decode_refuses_wrong_length() {
    let text = format!("Secret key:\n{}\nPublic key:\n{}\n", "00".repeat(31), "00".repeat(32));
    assert_eq!(decode(text.as_bytes()).unwrap_err(), KeyFileError::WrongLength);
}

#[test]
fn self_test_passes_on_generated_key() {
    let kp = generate();
    let back = self_test(&encode(&kp), b"self-test message").unwrap();
    assert_eq!(back.secret, kp.secret);
    assert_eq!(back.public, kp.public);
}

#[test]
fn self_test_reports_each_failure() {
    assert_eq!(self_test(b"", b"m").unwrap_err(), SelfTestError::File(KeyFileError::MissingLines));
    let mut kp = generate();
    let other = generate();
    kp.public = other.public;
    assert_eq!(self_test(&encode(&kp), b"m").unwrap_err(), SelfTestError::Verify);
    let mut found = false;
    for b in 0u8..=255 {
        let mut bad = fixed_pair();
        bad.public = vec![b; 32];
        bad.public[31] &= 0x7f;
        if sign(b"m", &bad).is_err() {
            assert_eq!(
                self_test(&encode(&bad), b"m").unwrap_err(),
                SelfTestError::Sign(SignError::InvalidPublicKey)
            );
            found = true;
            break;
        }
    }
    assert!(found);
}
