//! The acceptance rule on a public key's last four bytes.
//!
//! Byte 31 is a year tag, byte 30 a month tag written as two nibbles, byte 29
//! a fixed marker and the low nibble of byte 28 a fixed digit. The month tag
//! accepts `0x01` to `0x09` and `0x10` to `0x12`: a zero low nibble under a
//! zero high nibble is no month, so `0x00` is refused.
use crate::hex_text::{hex_bytes, hex_decode, hex_valid};
use vstd::prelude::*;

verus! {

/// The value that byte 29 must hold.
pub const MARKER: u8 = 0x3e;

/// The value that the low nibble of byte 28 must hold.
pub const LOW_DIGIT: u8 = 0x8;

/// The year tag is the configured one or the one just before it.
pub open spec fn year_ok(tag: u8, year: u8) -> bool {
    tag == year || tag as int == year as int - 1
}

/// Months one to nine under high nibble zero, ten to twelve under high nibble one.
pub open spec fn month_ok(tag: u8) -> bool {
    ||| (tag / 16 == 0 && 1 <= tag % 16 <= 9)
    ||| (tag / 16 == 1 && tag % 16 <= 2)
}

/// What the validator decides of a 32-byte public key.
pub open spec fn key_matches(key: Seq<u8>, year: u8) -> bool {
    &&& year_ok(key[31], year)
    &&& key[29] == MARKER
    &&& key[28] % 16 == LOW_DIGIT
    &&& month_ok(key[30])
}

/// Decides whether `key` carries the tag of `year` or of the year before.
pub fn validate_key(key: &[u8], year: u8) -> (r: bool)
    requires
        key@.len() == 32,
    ensures
        r == key_matches(key@, year),
{
    let year_bit = key[31];
    let month_bit = key[30];
    let first_nib = month_bit & 0xF0;
    let second_nib = month_bit & 0x0F;
    let nib3e = key[29];
    let nib8 = key[28] & 0x0F;
    proof {
        assert(first_nib == 0 <==> month_bit / 16 == 0) by (bit_vector)
            requires first_nib == month_bit & 0xF0;
        assert(first_nib == 0x10 <==> month_bit / 16 == 1) by (bit_vector)
            requires first_nib == month_bit & 0xF0;
        assert(second_nib == month_bit % 16) by (bit_vector)
            requires second_nib == month_bit & 0x0F;
        let b28 = key[28];
        assert(nib8 == b28 % 16) by (bit_vector)
            requires nib8 == b28 & 0x0F;
    }
    let year_ok = year_bit == year || (year > 0 && year_bit == year - 1);
    year_ok && nib3e == MARKER && nib8 == LOW_DIGIT && ((first_nib == 0x10 && second_nib < 0x3)
        || (first_nib == 0x00 && second_nib < 0xA && second_nib > 0x0))
}

} // verus!

verus! {

/// Each of the four conditions is needed on its own: a key that fails any one
/// of them is refused whatever its other bytes hold.
pub proof fn lemma_each_condition_required(key: Seq<u8>, year: u8)
    requires
        key.len() == 32,
    ensures
        key[29] != MARKER ==> !key_matches(key, year),
        key[28] % 16 != LOW_DIGIT ==> !key_matches(key, year),
        !year_ok(key[31], year) ==> !key_matches(key, year),
        !month_ok(key[30]) ==> !key_matches(key, year),
{
}

} // verus!

verus! {

/// The year byte written as hex text: "26" stands for `0x26`. Longer text
/// keeps its first byte; text that is not an even number of hex digits, or
/// is empty, gives none.
pub fn year_tag_byte(tag: &[u8]) -> (r: Option<u8>)
    ensures
        r == if hex_valid(tag@) && tag@.len() >= 2 {
            Some(hex_bytes(tag@)[0])
        } else {
            None::<u8>
        },
{
    match hex_decode(tag) {
        Ok(b) => {
            if b.len() >= 1 {
                Some(b[0])
            } else {
                None
            }
        },
        Err(_) => None,
    }
}

} // verus!
