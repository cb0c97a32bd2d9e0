//! The persisted text form of a keypair: four lines, a label and the
//! lowercase hex secret, then a label and the lowercase hex public key.
//! Text is handled as ASCII bytes.
use crate::hex_text::{hex_bytes, hex_decode, hex_encode, hex_lower, hex_valid, lemma_hex_round_trip};
use crate::keys::{point_accepted, sign, signature_accepted, signature_of, verify, KeyPair, SignError, KEY_LENGTH};
use vstd::prelude::*;

verus! {

/// The line break.
pub const NEWLINE: u8 = 10;

/// "Secret key:" in ASCII.
pub open spec fn secret_label() -> Seq<u8> {
    seq![83u8, 101, 99, 114, 101, 116, 32, 107, 101, 121, 58]
}

/// "Public key:" in ASCII.
pub open spec fn public_label() -> Seq<u8> {
    seq![80u8, 117, 98, 108, 105, 99, 32, 107, 101, 121, 58]
}

/// The text that `encode` writes for a keypair.
pub open spec fn key_text(kp: KeyPair) -> Seq<u8> {
    secret_label() + seq![NEWLINE] + hex_lower(kp.secret@) + seq![NEWLINE] + public_label()
        + seq![NEWLINE] + hex_lower(kp.public@) + seq![NEWLINE]
}

/// The number of bytes before the first line break, or the whole length.
pub open spec fn line_len(t: Seq<u8>) -> nat
    decreases t.len(),
{
    if t.len() == 0 || t[0] == NEWLINE {
        0
    } else {
        1 + line_len(t.drop_first())
    }
}

/// Line `k` of the text, counting from zero; a final line break opens no line.
pub open spec fn nth_line(t: Seq<u8>, k: nat) -> Option<Seq<u8>>
    decreases k,
{
    if t.len() == 0 {
        None
    } else if k == 0 {
        Some(t.subrange(0, line_len(t) as int))
    } else {
        let n = line_len(t) as int;
        if n == t.len() {
            None
        } else {
            nth_line(t.subrange(n + 1, t.len() as int), (k - 1) as nat)
        }
    }
}

/// Why a key file could not be read back.
#[derive(Clone, Copy, Debug, PartialEq, Eq)]
pub enum KeyFileError {
    /// The text has no fourth line.
    MissingLines,
    /// A key line holds something other than an even number of hex digits.
    InvalidHex,
    /// The two key lines do not decode to 32 bytes each.
    WrongLength,
}

/// What `decode` gives for a text.
pub open spec fn decode_result(t: Seq<u8>) -> Result<(Seq<u8>, Seq<u8>), KeyFileError> {
    match (nth_line(t, 1), nth_line(t, 3)) {
        (Some(s), Some(p)) => {
            let h = s + p;
            if !hex_valid(h) {
                Err(KeyFileError::InvalidHex)
            } else if hex_bytes(h).len() != 2 * KEY_LENGTH {
                Err(KeyFileError::WrongLength)
            } else {
                Ok((hex_bytes(h).subrange(0, 32), hex_bytes(h).subrange(32, 64)))
            }
        },
        _ => Err(KeyFileError::MissingLines),
    }
}

fn push_all(out: &mut Vec<u8>, s: &[u8])
    ensures
        final(out)@ == old(out)@ + s@,
{
    let mut i: usize = 0;
    while i < s.len()
        invariant
            i <= s@.len(),
            out@ == old(out)@ + s@.subrange(0, i as int),
        decreases s@.len() - i,
    {
        out.push(s[i]);
        i = i + 1;
    }
    assert(s@.subrange(0, s@.len() as int) =~= s@);
}

/// The four-line text of a keypair, with a final line break.
pub fn encode(keypair: &KeyPair) -> (r: Vec<u8>)
    ensures
        r@ == key_text(*keypair),
{
    let secret_tag: [u8; 11] = [83u8, 101, 99, 114, 101, 116, 32, 107, 101, 121, 58];
    let public_tag: [u8; 11] = [80u8, 117, 98, 108, 105, 99, 32, 107, 101, 121, 58];
    let newline: [u8; 1] = [NEWLINE];
    let mut out: Vec<u8> = Vec::new();
    push_all(&mut out, secret_tag.as_slice());
    push_all(&mut out, newline.as_slice());
    let hs = hex_encode(keypair.secret.as_slice());
    push_all(&mut out, hs.as_slice());
    push_all(&mut out, newline.as_slice());
    push_all(&mut out, public_tag.as_slice());
    push_all(&mut out, newline.as_slice());
    let hp = hex_encode(keypair.public.as_slice());
    push_all(&mut out, hp.as_slice());
    push_all(&mut out, newline.as_slice());
    proof {
        assert(secret_tag@ =~= secret_label());
        assert(public_tag@ =~= public_label());
        assert(newline@ =~= seq![NEWLINE]);
        assert(out@ =~= key_text(*keypair));
    }
    out
}

} // verus!

verus! {

proof fn lemma_line_len_step(t: Seq<u8>, i: int)
    requires
        0 <= i < t.len(),
        t[i] != NEWLINE,
    ensures
        line_len(t.subrange(i, t.len() as int)) == 1 + line_len(t.subrange(i + 1, t.len() as int)),
{
    assert(t.subrange(i, t.len() as int).drop_first() =~= t.subrange(i + 1, t.len() as int));
}

/// The end of the line that starts at `start`: the next line break, or the end.
fn line_end(t: &[u8], start: usize) -> (end: usize)
    requires
        start <= t@.len(),
    ensures
        end == start + line_len(t@.subrange(start as int, t@.len() as int)),
        end <= t@.len(),
{
    let mut end: usize = start;
    while end < t.len() && t[end] != NEWLINE
        invariant
            start <= end <= t@.len(),
            line_len(t@.subrange(start as int, t@.len() as int)) == (end - start) + line_len(
                t@.subrange(end as int, t@.len() as int),
            ),
        decreases t@.len() - end,
    {
        proof {
            lemma_line_len_step(t@, end as int);
        }
        end = end + 1;
    }
    end
}

/// Where line `k` stands in the text, as a start and an end.
fn find_line(t: &[u8], k: usize) -> (r: Option<(usize, usize)>)
    ensures
        r.is_some() == nth_line(t@, k as nat).is_some(),
        r.is_some() ==> {
            let (s, e) = r.unwrap();
            s <= e <= t@.len() && nth_line(t@, k as nat) == Some(t@.subrange(s as int, e as int))
        },
{
    let mut pos: usize = 0;
    let mut rem: usize = k;
    assert(t@.subrange(0, t@.len() as int) =~= t@);
    loop
        invariant
            pos <= t@.len(),
            nth_line(t@, k as nat) == nth_line(t@.subrange(pos as int, t@.len() as int), rem as nat),
        decreases t@.len() - pos,
    {
        let ghost u = t@.subrange(pos as int, t@.len() as int);
        if pos == t.len() {
            return None;
        }
        let end = line_end(t, pos);
        if rem == 0 {
            assert(u.subrange(0, (end - pos) as int) =~= t@.subrange(pos as int, end as int));
            return Some((pos, end));
        }
        if end == t.len() {
            return None;
        }
        assert(u.subrange((end - pos) + 1, u.len() as int) =~= t@.subrange(end + 1, t@.len() as int));
        pos = end + 1;
        rem = rem - 1;
    }
}

fn push_range(out: &mut Vec<u8>, t: &[u8], s: usize, e: usize)
    requires
        s <= e <= t@.len(),
    ensures
        final(out)@ == old(out)@ + t@.subrange(s as int, e as int),
{
    let mut i: usize = s;
    while i < e
        invariant
            s <= i <= e,
            e <= t@.len(),
            out@ == old(out)@ + t@.subrange(s as int, i as int),
        decreases e - i,
    {
        out.push(t[i]);
        i = i + 1;
        assert(t@.subrange(s as int, i as int) =~= t@.subrange(s as int, i - 1) + seq![t@[i - 1]]);
    }
}

/// Reads a keypair back from its text: the hex on lines two and four,
/// secret then public, must decode to 64 bytes.
pub fn decode(text: &[u8]) -> (r: Result<KeyPair, KeyFileError>)
    ensures
        match r {
            Ok(kp) => kp.wf() && decode_result(text@) == Ok::<(Seq<u8>, Seq<u8>), KeyFileError>(
                (kp.secret@, kp.public@),
            ),
            Err(e) => decode_result(text@) == Err::<(Seq<u8>, Seq<u8>), KeyFileError>(e),
        },
{
    let secret_line = find_line(text, 1);
    let public_line = find_line(text, 3);
    if secret_line.is_none() || public_line.is_none() {
        return Err(KeyFileError::MissingLines);
    }
    let (s1, e1) = secret_line.unwrap();
    let (s3, e3) = public_line.unwrap();
    let mut h: Vec<u8> = Vec::new();
    push_range(&mut h, text, s1, e1);
    push_range(&mut h, text, s3, e3);
    assert(h@ =~= text@.subrange(s1 as int, e1 as int) + text@.subrange(s3 as int, e3 as int));
    match hex_decode(h.as_slice()) {
        Err(_) => Err(KeyFileError::InvalidHex),
        Ok(b) => {
            if b.len() != 2 * KEY_LENGTH {
                Err(KeyFileError::WrongLength)
            } else {
                let mut secret: Vec<u8> = Vec::new();
                let mut public: Vec<u8> = Vec::new();
                push_range(&mut secret, b.as_slice(), 0, KEY_LENGTH);
                push_range(&mut public, b.as_slice(), KEY_LENGTH, 2 * KEY_LENGTH);
                proof {
                    assert(secret@ =~= b@.subrange(0, 32));
                    assert(public@ =~= b@.subrange(32, 64));
                }
                Ok(KeyPair { secret, public })
            }
        },
    }
}

} // verus!

verus! {

proof fn lemma_line_len_prefix(a: Seq<u8>, rest: Seq<u8>)
    requires
        forall|i: int| 0 <= i < a.len() ==> a[i] != NEWLINE,
    ensures
        line_len(a + seq![NEWLINE] + rest) == a.len(),
    decreases a.len(),
{
    let t = a + seq![NEWLINE] + rest;
    if a.len() > 0 {
        let a1 = a.drop_first();
        assert(t.drop_first() =~= a1 + seq![NEWLINE] + rest);
        lemma_line_len_prefix(a1, rest);
    } else {
        assert(t[0] == NEWLINE);
    }
}

proof fn lemma_lines_after(a: Seq<u8>, rest: Seq<u8>, k: nat)
    requires
        forall|i: int| 0 <= i < a.len() ==> a[i] != NEWLINE,
    ensures
        nth_line(a + seq![NEWLINE] + rest, 0) == Some(a),
        k > 0 ==> nth_line(a + seq![NEWLINE] + rest, k) == nth_line(rest, (k - 1) as nat),
{
    let t = a + seq![NEWLINE] + rest;
    lemma_line_len_prefix(a, rest);
    assert(t.subrange(0, a.len() as int) =~= a);
    assert(t.subrange(a.len() as int + 1, t.len() as int) =~= rest);
}

proof fn lemma_hex_has_no_newline(b: Seq<u8>)
    ensures
        forall|i: int| 0 <= i < hex_lower(b).len() ==> hex_lower(b)[i] != NEWLINE,
{
    assert forall|i: int| 0 <= i < hex_lower(b).len() implies hex_lower(b)[i] != NEWLINE by {
        assert(0 <= b[i / 2] as int / 16 < 16);
        assert(0 <= b[i / 2] as int % 16 < 16);
    }
}

proof fn lemma_hex_concat(a: Seq<u8>, b: Seq<u8>)
    ensures
        hex_lower(a) + hex_lower(b) == hex_lower(a + b),
{
    let l = hex_lower(a) + hex_lower(b);
    let r = hex_lower(a + b);
    assert forall|i: int| 0 <= i < r.len() implies l[i] == r[i] by {
        if i >= 2 * a.len() {
            let j = i - 2 * a.len();
            assert(j / 2 == i / 2 - a.len());
            assert(j % 2 == i % 2);
        }
    }
    assert(l =~= r);
}

/// Reading back the text that `encode` wrote gives the same keypair.
pub proof fn lemma_key_file_round_trip(kp: KeyPair)
    requires
        kp.wf(),
    ensures
        decode_result(key_text(kp)) == Ok::<(Seq<u8>, Seq<u8>), KeyFileError>((kp.secret@, kp.public@)),
{
    let nl = seq![NEWLINE];
    let hs = hex_lower(kp.secret@);
    let hp = hex_lower(kp.public@);
    let e: Seq<u8> = Seq::empty();
    lemma_hex_has_no_newline(kp.secret@);
    lemma_hex_has_no_newline(kp.public@);
    let r3 = hp + nl + e;
    let r2 = public_label() + nl + r3;
    let r1 = hs + nl + r2;
    let t = secret_label() + nl + r1;
    assert(t =~= key_text(kp));
    assert(forall|i: int| 0 <= i < secret_label().len() ==> secret_label()[i] != NEWLINE);
    assert(forall|i: int| 0 <= i < public_label().len() ==> public_label()[i] != NEWLINE);
    lemma_lines_after(secret_label(), r1, 1);
    lemma_lines_after(hs, r2, 0);
    lemma_lines_after(secret_label(), r1, 3);
    lemma_lines_after(hs, r2, 2);
    lemma_lines_after(public_label(), r3, 1);
    lemma_lines_after(hp, e, 0);
    lemma_hex_concat(kp.secret@, kp.public@);
    lemma_hex_round_trip(kp.secret@ + kp.public@);
    let b = hex_bytes(hs + hp);
    assert(b.subrange(0, 32) =~= kp.secret@);
    assert(b.subrange(32, 64) =~= kp.public@);
}

} // verus!

verus! {

/// Why a persisted key failed its self-test.
#[derive(Clone, Copy, Debug, PartialEq, Eq)]
pub enum SelfTestError {
    /// The text could not be read back.
    File(KeyFileError),
    /// The keypair could not sign.
    Sign(SignError),
    /// The signature did not check against the public key.
    Verify,
}

/// Reads a keypair from its text, signs `message` with it and checks the
/// signature against the public key; returns the keypair when all of that
/// succeeds.
pub fn self_test(text: &[u8], message: &[u8]) -> (r: Result<KeyPair, SelfTestError>)
    ensures
        match decode_result(text@) {
            Err(e) => r == Err::<KeyPair, SelfTestError>(SelfTestError::File(e)),
            Ok((s, p)) => if !point_accepted(p) {
                r == Err::<KeyPair, SelfTestError>(SelfTestError::Sign(SignError::InvalidPublicKey))
            } else if !signature_accepted(p, message@, signature_of(s + p, message@)) {
                r == Err::<KeyPair, SelfTestError>(SelfTestError::Verify)
            } else {
                r.is_ok() && r.unwrap().wf() && r.unwrap().secret@ == s && r.unwrap().public@ == p
            },
        },
{
    let kp = match decode(text) {
        Ok(kp) => kp,
        Err(e) => return Err(SelfTestError::File(e)),
    };
    let sig = match sign(message, &kp) {
        Ok(sig) => sig,
        Err(e) => return Err(SelfTestError::Sign(e)),
    };
    if verify(message, sig.as_slice(), kp.public.as_slice()) {
        Ok(kp)
    } else {
        Err(SelfTestError::Verify)
    }
}

} // verus!
