//! Random key material for the messaging subsystem, and hexadecimal text.
use argon2::password_hash::rand_core::{OsRng, RngCore};
use vstd::prelude::*;

verus! {

/// The lowercase hexadecimal digit of `n`, for `n < 16`.
pub open spec fn hex_digit(n: u8) -> char {
    if n < 10 {
        (n + 48) as char
    } else {
        (n + 87) as char
    }
}

/// Each byte as two lowercase hexadecimal digits, high nibble first.
pub open spec fn hex_encoding(b: Seq<u8>) -> Seq<char>
    decreases b.len(),
{
    if b.len() == 0 {
        Seq::empty()
    } else {
        hex_encoding(b.drop_last()) + seq![hex_digit(b.last() / 16), hex_digit(b.last() % 16)]
    }
}

pub open spec fn is_hex_char(c: char) -> bool {
    ('0' <= c && c <= '9') || ('a' <= c && c <= 'f') || ('A' <= c && c <= 'F')
}

/// The value of a hexadecimal digit of either case.
pub open spec fn hex_value(c: char) -> int {
    if '0' <= c && c <= '9' {
        c as u32 - 48
    } else if 'a' <= c && c <= 'f' {
        c as u32 - 87
    } else {
        c as u32 - 55
    }
}

/// The bytes that `s` spells as pairs of hexadecimal digits of either case,
/// high nibble first; `None` for an odd length or a character that is no digit.
pub open spec fn hex_decoding(s: Seq<char>) -> Option<Seq<u8>> {
    if s.len() % 2 == 0 && forall|i: int| 0 <= i < s.len() ==> is_hex_char(#[trigger] s[i]) {
        Some(Seq::new((s.len() / 2) as nat, |i: int| (hex_value(s[2 * i]) * 16 + hex_value(s[2 * i + 1])) as u8))
    } else {
        None
    }
}

#[verifier::external_type_specification]
#[verifier::external_body]
pub struct ExFromHexError(hex::FromHexError);

/// Relies on `hex::decode`: each pair of hexadecimal digits, of either case, is
/// one byte; an odd length or any other character is an error.
#[verifier::external_body]
pub(crate) fn from_hex(s: &str) -> (r: Result<Vec<u8>, hex::FromHexError>)
    ensures
        match r {
            Ok(v) => hex_decoding(s@) == Some(v@),
            Err(_) => hex_decoding(s@) is None,
        },
{
    hex::decode(s)
}

/// Relies on `hex::encode`: two lowercase hexadecimal digits per byte, in order.
#[verifier::external_body]
pub(crate) fn to_hex(bytes: &[u8]) -> (r: String)
    ensures
        r@ == hex_encoding(bytes@),
{
    hex::encode(bytes)
}

/// Relies on `RngCore::try_fill_bytes` of rand_core's `OsRng`, reached through
/// `argon2::password_hash::rand_core`: fills the buffer from the operating
/// system's generator, or fails; the buffer keeps its length.
#[verifier::external_body]
fn os_random_bytes(buf: &mut [u8]) -> (r: bool)
    ensures
        final(buf)@.len() == old(buf)@.len(),
{
    OsRng.try_fill_bytes(buf).is_ok()
}

pub const KEY_LEN: usize = 32;

/// 32 fresh random bytes as 64 lowercase hexadecimal digits; `None` when the
/// operating system's generator fails.
pub fn compute_random_32_bytes_key() -> (r: Option<String>)
    ensures
        r matches Some(s) ==> exists|b: Seq<u8>| b.len() == KEY_LEN && s@ == hex_encoding(b),
{
    let mut buf = [0u8; 32];
    if !os_random_bytes(&mut buf) {
        return None;
    }
    let s = to_hex(&buf);
    Some(s)
}

} // verus!
