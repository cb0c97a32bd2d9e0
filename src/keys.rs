//! Ed25519 keypairs as plain bytes, with generation, signing and checking
//! done by `ed25519_dalek`.
use ed25519_dalek::Signer;
use ed25519_dalek::Verifier;
use vstd::prelude::*;

verus! {

/// Length of a secret seed and of a public key.
pub const KEY_LENGTH: usize = 32;

/// Length of a signature.
pub const SIGNATURE_LENGTH: usize = 64;

/// A secret seed and its public key, both 32 bytes long.
#[derive(Clone, Debug)]
pub struct KeyPair {
    pub secret: Vec<u8>,
    pub public: Vec<u8>,
}

impl KeyPair {
    /// Both halves have the key length.
    pub open spec fn wf(&self) -> bool {
        self.secret@.len() == KEY_LENGTH && self.public@.len() == KEY_LENGTH
    }

    /// The 64-byte encoding: secret first, then public.
    pub open spec fn combined(&self) -> Seq<u8> {
        self.secret@ + self.public@
    }

    /// The 64-byte encoding, secret first.
    pub fn to_bytes(&self) -> (r: Vec<u8>)
        ensures
            r@ == self.combined(),
    {
        let mut r: Vec<u8> = Vec::new();
        let mut i: usize = 0;
        while i < self.secret.len()
            invariant
                i <= self.secret@.len(),
                r@ == self.secret@.subrange(0, i as int),
            decreases self.secret@.len() - i,
        {
            r.push(self.secret[i]);
            i = i + 1;
        }
        let mut j: usize = 0;
        while j < self.public.len()
            invariant
                j <= self.public@.len(),
                r@ == self.secret@ + self.public@.subrange(0, j as int),
            decreases self.public@.len() - j,
        {
            r.push(self.public[j]);
            j = j + 1;
        }
        assert(self.public@.subrange(0, self.public@.len() as int) =~= self.public@);
        r
    }
}

/// The public key that the curve's derivation gives for a secret seed.
pub uninterp spec fn public_of(secret: Seq<u8>) -> Seq<u8>;

/// Whether 32 bytes are the compressed form of a point on the curve.
pub uninterp spec fn point_accepted(public: Seq<u8>) -> bool;

/// The deterministic signature of a message under a 64-byte keypair encoding.
pub uninterp spec fn signature_of(keypair: Seq<u8>, message: Seq<u8>) -> Seq<u8>;

/// Whether a signature checks against a public key and a message.
pub uninterp spec fn signature_accepted(public: Seq<u8>, message: Seq<u8>, signature: Seq<u8>) -> bool;

#[verifier::external_type_specification]
#[verifier::external_body]
pub struct ExSignatureError(ed25519_dalek::SignatureError);

/// Relies on `ed25519_dalek::Keypair::generate` with the operating system's
/// random source: a fresh 32-byte seed and the public key derived from it.
/// It panics if the random source fails.
#[verifier::external_body]
fn generate_from_os() -> (r: KeyPair)
    ensures
        r.wf(),
        r.public@ == public_of(r.secret@),
{
    let kp = ed25519_dalek::Keypair::generate(&mut rand_core::OsRng);
    KeyPair { secret: kp.secret.to_bytes().to_vec(), public: kp.public.to_bytes().to_vec() }
}

/// Relies on `ed25519_dalek::Keypair::from_bytes` and its `sign`: the bytes are
/// taken when they are 64 long and the last 32 decompress to a point; the
/// signature is 64 bytes.
#[verifier::external_body]
fn sign_with_keypair(keypair: &[u8], message: &[u8]) -> (r: Result<Vec<u8>, ed25519_dalek::SignatureError>)
    ensures
        r.is_ok() == (keypair@.len() == 64 && point_accepted(keypair@.subrange(32, 64))),
        r.is_ok() ==> r.unwrap()@ == signature_of(keypair@, message@),
        r.is_ok() ==> r.unwrap()@.len() == SIGNATURE_LENGTH,
{
    let kp = ed25519_dalek::Keypair::from_bytes(keypair)?;
    Ok(kp.sign(message).to_bytes().to_vec())
}

/// Relies on `ed25519_dalek::PublicKey::from_bytes`, `Signature::from_bytes`
/// and `PublicKey::verify`: nothing checks unless the key is 32 bytes that
/// decompress to a point and the signature is 64 bytes.
#[verifier::external_body]
fn verify_with_public(public: &[u8], message: &[u8], signature: &[u8]) -> (r: Result<(), ed25519_dalek::SignatureError>)
    ensures
        r.is_ok() == signature_accepted(public@, message@, signature@),
        r.is_ok() ==> public@.len() == KEY_LENGTH && point_accepted(public@),
        r.is_ok() ==> signature@.len() == SIGNATURE_LENGTH,
{
    let pk = ed25519_dalek::PublicKey::from_bytes(public)?;
    let sig = ed25519_dalek::Signature::from_bytes(signature)?;
    pk.verify(message, &sig)
}

/// Why a keypair could not sign.
#[derive(Clone, Copy, Debug, PartialEq, Eq)]
pub enum SignError {
    /// The public half is no point of the curve.
    InvalidPublicKey,
}

/// A fresh keypair from the operating system's random source.
pub fn generate() -> (r: KeyPair)
    ensures
        r.wf(),
        r.public@ == public_of(r.secret@),
{
    generate_from_os()
}

/// Signs `message` with `keypair`; fails exactly when the public half is no
/// point of the curve.
pub fn sign(message: &[u8], keypair: &KeyPair) -> (r: Result<Vec<u8>, SignError>)
    requires
        keypair.wf(),
    ensures
        r.is_ok() == point_accepted(keypair.public@),
        r.is_ok() ==> r.unwrap()@ == signature_of(keypair.combined(), message@),
        r.is_ok() ==> r.unwrap()@.len() == SIGNATURE_LENGTH,
        r.is_err() ==> r == Err::<Vec<u8>, SignError>(SignError::InvalidPublicKey),
{
    let bytes = keypair.to_bytes();
    proof {
        assert(bytes@.subrange(32, 64) =~= keypair.public@);
    }
    match sign_with_keypair(bytes.as_slice(), message) {
        Ok(sig) => Ok(sig),
        Err(_) => Err(SignError::InvalidPublicKey),
    }
}

/// Whether `signature` is a valid signature of `message` under `public_key`.
pub fn verify(message: &[u8], signature: &[u8], public_key: &[u8]) -> (r: bool)
    ensures
        r == signature_accepted(public_key@, message@, signature@),
        r ==> public_key@.len() == KEY_LENGTH && signature@.len() == SIGNATURE_LENGTH,
{
    verify_with_public(public_key, message, signature).is_ok()
}

} // verus!
