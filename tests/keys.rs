use vanity_key::keys::{generate, sign, verify, KeyPair};

#[test]
fn generated_keys_have_key_length_and_differ() {
    let a = generate();
    let b = generate();
    assert_eq!(a.secret.len(), 32);
    assert_eq!(a.public.len(), 32);
    assert_ne!(a.secret, b.secret);
    assert_ne!(a.public, b.public);
}

#[test]
fn to_bytes_is_secret_then_public() {
    let kp = KeyPair { secret: vec![1u8; 32], public: vec![2u8; 32] };
    let b = kp.to_bytes();
    assert_eq!(b.len(), 64);
    assert_eq!(&b[..32], &[1u8; 32][..]);
    assert_eq!(&b[32..], &[2u8; 32][..]);
}

#[test]
fn sign_then_verify_succeeds() {
    for msg in [&b""[..], &b"hello"[..], &[0u8; 1000][..]] {
        let kp = generate();
        let sig = sign(msg, &kp).unwrap();
        assert_eq!(sig.len(), 64);
        assert!(verify(msg, &sig, &kp.public));
    }
}

#[test]
fn signing_is_deterministic() {
    let kp = generate();
    assert_eq!(sign(b"abc", &kp).unwrap(), sign(b"abc", &kp).unwrap());
}

#[test]
fn flipping_a_message_bit_breaks_verification() {
    let kp = generate();
    let msg = b"vanity".to_vec();
    let sig = sign(&msg, &kp).unwrap();
    for i in 0..msg.len() * 8 {
        let mut m = msg.clone();
        m[i / 8] ^= 1 << (i % 8);
        assert!(!verify(&m, &sig, &kp.public));
    }
}

#[test]
fn flipping_a_public_key_bit_breaks_verification() {
    let kp = generate();
    let sig = sign(b"vanity", &kp).unwrap();
    for i in 0..256 {
        let mut p = kp.public.clone();
        p[i / 8] ^= 1 << (i % 8);
        assert!(!verify(b"vanity", &sig, &p));
    }
}

#[test]
fn verify_refuses_wrong_lengths() {
    let kp = generate();
    let sig = sign(b"x", &kp).unwrap();
    assert!(!verify(b"x", &sig[..63], &kp.public));
    assert!(!verify(b"x", &sig, &kp.public[..31]));
}
