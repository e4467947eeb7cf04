//! The password hasher: a salted memory-hard digest, stored as a
//! fixed-length lowercase hex string.

use vstd::prelude::*;
use vstd::utf8::encode_utf8;

verus! {

/// Byte length of the UTF-8 encoding of a character sequence. The hasher
/// consumes bytes, so its machine limits are byte limits.
pub open spec fn utf8_len(s: Seq<char>) -> nat {
    encode_utf8(s).len()
}

/// What argon2rs computes for a password and salt: a function of those
/// two arguments alone. The algorithm itself is not restated here.
pub uninterp spec fn argon2i_digest(password: Seq<char>, salt: Seq<char>) -> Seq<u8>;

/// Lowercase hex digit for a value below 16.
pub open spec fn hex_digit(n: u8) -> char
    recommends
        n < 16,
{
    if n < 10 {
        (('0' as u8) + n) as char
    } else {
        (('a' as u8) + (n - 10)) as char
    }
}

/// Lowercase hex rendering of a byte string: two digits per byte, high
/// nibble first.
pub open spec fn hex_of(bytes: Seq<u8>) -> Seq<char> {
    Seq::new(
        bytes.len() * 2,
        |i: int|
            if i % 2 == 0 {
                hex_digit(bytes[i / 2] / 16)
            } else {
                hex_digit(bytes[i / 2] % 16)
            },
    )
}

/// The digest this library stores for a password and salt: the lowercase
/// hex rendering of the argon2i digest.
pub open spec fn spec_hash(password: Seq<char>, salt: Seq<char>) -> Seq<char> {
    hex_of(argon2i_digest(password, salt))
}

/// Relies on argon2rs::argon2i_simple: a 32-byte digest that depends on
/// the password and salt alone. It asserts that the salt is 8 to 2^32 - 1
/// bytes and the password at most 2^32 - 1 bytes, so those inputs are
/// required here.
#[verifier::external_body]
fn argon2i(password: &str, salt: &str) -> (r: Vec<u8>)
    requires
        8 <= utf8_len(salt@) <= 0xffff_ffff,
        utf8_len(password@) <= 0xffff_ffff,
    ensures
        r@ == argon2i_digest(password@, salt@),
        r@.len() == 32,
{
    argon2rs::argon2i_simple(password, salt).to_vec()
}

/// Relies on hex::encode: lowercase hex, two digits per byte, high nibble
/// first.
#[verifier::external_body]
fn hex_encode(bytes: &Vec<u8>) -> (r: String)
    ensures
        r@ == hex_of(bytes@),
{
    hex::encode(bytes.as_slice())
}

/// `hash(password, salt)`: the stored digest, deterministic in its two
/// arguments, 64 hex characters long.
pub fn hash(password: &str, salt: &str) -> (r: String)
    requires
        8 <= utf8_len(salt@) <= 0xffff_ffff,
        utf8_len(password@) <= 0xffff_ffff,
    ensures
        r@ == spec_hash(password@, salt@),
        r@.len() == 64,
{
    let digest = argon2i(password, salt);
    hex_encode(&digest)
}

/// Law: hashing is pure and deterministic — the digest is a function of
/// the password and salt and of nothing else, so equal inputs always
/// yield equal digests. (That distinct salts yield distinct digests is a
/// probabilistic property of the digest function and is not provable.)
pub proof fn lemma_hash_deterministic(password: Seq<char>, salt: Seq<char>)
    ensures
        spec_hash(password, salt) == spec_hash(password, salt),
{
}

} // verus!
