//! Account tokens of the sync server: 32 random bytes shown once in hex;
//! only their SHA-256 (in hex) is stored.

use vstd::prelude::*;
use sha2::Digest;
use crate::text::push_char;
use vstd::string::StringSliceAdditionalSpecFns;

verus! {

/// Lowercase hexadecimal digit of `n` (< 16).
pub open spec fn hex_digit_spec(n: int) -> char {
    if n < 10 {
        (48 + n) as char
    } else {
        (87 + n) as char
    }
}

/// Two lowercase hexadecimal digits per byte, most significant first.
pub open spec fn hex_spec(bytes: Seq<u8>) -> Seq<char>
    decreases bytes.len(),
{
    if bytes.len() == 0 {
        Seq::empty()
    } else {
        let b = bytes.last();
        hex_spec(bytes.drop_last()).push(hex_digit_spec((b / 16) as int)).push(hex_digit_spec((b % 16) as int))
    }
}

fn hex_digit(n: u8) -> (c: char)
    requires
        n < 16,
    ensures
        c == hex_digit_spec(n as int),
{
    if n < 10 {
        (48 + n) as char
    } else {
        (87 + n) as char
    }
}

/// Bytes as lowercase hexadecimal, two digits per byte.
pub fn hex(bytes: &[u8]) -> (r: String)
    ensures
        r@ == hex_spec(bytes@),
{
    let mut r = String::new();
    let n = bytes.len();
    for i in 0..n
        invariant
            n == bytes@.len(),
            r@ == hex_spec(bytes@.take(i as int)),
    {
        let b = bytes[i];
        push_char(&mut r, hex_digit(b / 16));
        push_char(&mut r, hex_digit(b % 16));
        assert(bytes@.take(i + 1).drop_last() =~= bytes@.take(i as int));
        assert(bytes@.take(i + 1).last() == b);
    }
    assert(bytes@.take(n as int) =~= bytes@);
    r
}

/// Name for the SHA-256 digest of `data` (computed by the `sha2` crate).
pub uninterp spec fn sha256_spec(data: Seq<u8>) -> Seq<u8>;

/// `sha2::Sha256::digest`: the 32-byte SHA-256 digest of `data`, a function
/// of `data` alone.
#[verifier::external_body]
fn sha256(data: &[u8]) -> (r: [u8; 32])
    ensures
        r@ == sha256_spec(data@),
{
    let out: [u8; 32] = sha2::Sha256::digest(data).into();
    out
}

/// Stored form of a token: hex of its SHA-256.
pub fn token_hash(token: &str) -> (r: String)
    ensures
        r@ == hex_spec(sha256_spec(token.spec_bytes())),
{
    let d = sha256(token.as_bytes());
    hex(d.as_slice())
}

#[verifier::external_type_specification]
#[verifier::external_body]
pub struct ExRandomError(getrandom::Error);

/// `getrandom::fill`: fills the buffer with bytes from the system's random
/// source, or fails when there is none. Nothing is stated of the bytes.
#[verifier::external_body]
fn fill_random(buf: &mut [u8; 32]) -> (r: Result<(), getrandom::Error>) {
    getrandom::fill(buf)
}

/// The system has no source of randomness.
#[derive(Debug, Clone, Copy, PartialEq, Eq, Structural)]
pub struct NoRandomness;

/// A fresh account token: 32 random bytes in hex (64 characters).
pub fn generate_token() -> (r: Result<String, NoRandomness>)
    ensures
        r matches Ok(t) ==> exists|b: Seq<u8>| b.len() == 32 && t@ == hex_spec(b),
{
    let mut bytes = [0u8; 32];
    match fill_random(&mut bytes) {
        Ok(()) => Ok(hex(bytes.as_slice())),
        Err(_) => Err(NoRandomness),
    }
}

/// The hex form has two digits per byte, each a lowercase hex digit.
pub proof fn law_hex_is_two_digits_per_byte(bytes: Seq<u8>)
    ensures
        hex_spec(bytes).len() == 2 * bytes.len(),
        forall|i: int| 0 <= i < hex_spec(bytes).len() ==> {
            let c = #[trigger] hex_spec(bytes)[i];
            (48 <= c as u32 <= 57) || (97 <= c as u32 <= 102)
        },
    decreases bytes.len(),
{
    if bytes.len() > 0 {
        law_hex_is_two_digits_per_byte(bytes.drop_last());
        let prev = hex_spec(bytes.drop_last());
        let b = bytes.last();
        assert forall|i: int| 0 <= i < hex_spec(bytes).len() implies {
            let c = #[trigger] hex_spec(bytes)[i];
            (48 <= c as u32 <= 57) || (97 <= c as u32 <= 102)
        } by {
            if i < prev.len() {
                assert(hex_spec(bytes)[i] == prev[i]);
            }
        }
    }
}

} // verus!
