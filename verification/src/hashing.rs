//! Password hashing, token generation and token digests.
//!
//! Passwords are hashed with scrypt, a memory-hard salted function, into a
//! self-describing PHC string; verification recomputes from the parameters
//! and salt embedded in that string. Session tokens are 16 random bytes,
//! hex-encoded, and only their SHA-256 digest (again hex-encoded) is ever
//! stored. The outside calls stand behind trusted wrappers; everything that
//! combines them is verified.

use vstd::prelude::*;

use scrypt::password_hash::{PasswordHash, PasswordHasher, PasswordVerifier, SaltString};
use sha2::Digest;

verus! {

/// Whether scrypt verification of `password` against the self-describing
/// PHC string `phc_hash` succeeds. This is a function of the two arguments
/// alone: the salt and the cost parameters are read back out of the string.
pub uninterp spec fn scrypt_matches(password: Seq<char>, phc_hash: Seq<char>) -> bool;

/// The SHA-256 digest of a byte sequence.
pub uninterp spec fn sha256_of(bytes: Seq<u8>) -> Seq<u8>;

/// The lowercase hex digit for a value below 16.
pub open spec fn hex_digit(v: u8) -> char
    recommends
        v < 16,
{
    if v < 10 {
        ((v + 48) as char)  // '0' is 48
    } else {
        ((v + 87) as char)  // 'a' is 97
    }
}

/// Lowercase hex encoding: two digits per byte, high nibble first.
pub open spec fn hex_of(bytes: Seq<u8>) -> Seq<char> {
    Seq::new(
        bytes.len() * 2,
        |i: int| if i % 2 == 0 {
            hex_digit(bytes[i / 2] / 16)
        } else {
            hex_digit(bytes[i / 2] % 16)
        },
    )
}

/// The stored digest of a raw token: the hex encoding of the SHA-256 digest
/// of the token's UTF-8 bytes.
pub open spec fn hash_token_spec(token: Seq<char>) -> Seq<char> {
    hex_of(sha256_of(vstd::utf8::encode_utf8(token)))
}

/// Relies on sha2's `Sha256`: the digest is 32 bytes and depends on the
/// input bytes alone.
#[verifier::external_body]
fn sha256(data: &[u8]) -> (r: Vec<u8>)
    ensures
        r@ == sha256_of(data@),
        r@.len() == 32,
{
    sha2::Sha256::digest(data).to_vec()
}

/// Relies on `hex::encode`: lowercase hex, two digits per byte, high nibble
/// first.
#[verifier::external_body]
fn hex_encode(data: &[u8]) -> (r: String)
    ensures
        r@ == hex_of(data@),
{
    hex::encode(data)
}

/// Relies on `getrandom::getrandom` to fill the buffer from the operating
/// system's random source; nothing is assumed of the values beyond the
/// length.
#[verifier::external_body]
fn random_bytes_16() -> (r: Vec<u8>)
    ensures
        r@.len() == 16,
{
    let mut buf = [0u8; 16];
    getrandom::getrandom(&mut buf).expect("the system random source is available");
    buf.to_vec()
}

/// Relies on scrypt's `PasswordHasher` impl: the returned PHC string embeds
/// the parameters and the salt it was produced with, so verifying it against
/// the same password succeeds whatever the salt was. The salt must be 16
/// bytes: far shorter or longer ones are refused by the salt encoding.
#[verifier::external_body]
fn scrypt_hash_with_salt(password: &str, salt: &Vec<u8>) -> (r: String)
    requires
        salt@.len() == 16,
    ensures
        scrypt_matches(password@, r@),
{
    let salt_string = SaltString::encode_b64(salt.as_slice()).expect("a 16-byte salt encodes");
    let params = scrypt::Params::new(15, 8, 1, 32).expect("the preset parameters are valid");
    scrypt::Scrypt
        .hash_password_customized(password.as_bytes(), None, None, params, &salt_string)
        .expect("scrypt accepts the preset parameters")
        .to_string()
}

/// Relies on scrypt's `PasswordVerifier` impl: verification recomputes the
/// digest from the parameters and salt embedded in the PHC string and
/// compares in constant time; a malformed string never matches.
#[verifier::external_body]
fn scrypt_verify(password: &str, phc_hash: &str) -> (r: bool)
    ensures
        r == scrypt_matches(password@, phc_hash@),
{
    match PasswordHash::new(phc_hash) {
        Ok(parsed) => scrypt::Scrypt.verify_password(password.as_bytes(), &parsed).is_ok(),
        Err(_) => false,
    }
}

/// Hashes a password with a fresh random salt into a self-describing PHC
/// string. The plaintext is recoverable from the result only by guessing.
pub fn hash_password(password: &str) -> (r: String)
    ensures
        scrypt_matches(password@, r@),
{
    let salt = random_bytes_16();
    scrypt_hash_with_salt(password, &salt)
}

/// Recomputes the hash of `password` from the parameters and salt embedded
/// in `phc_hash` and compares; true exactly when they match.
pub fn verify_password(password: &str, phc_hash: &str) -> (r: bool)
    ensures
        r == scrypt_matches(password@, phc_hash@),
{
    scrypt_verify(password, phc_hash)
}

/// Law: a password always verifies against its own fresh hash. The result
/// is proved to be true from the contracts of [`hash_password`] and
/// [`verify_password`] alone.
pub fn password_round_trip(password: &str) -> (r: bool)
    ensures
        r,
{
    let phc_hash = hash_password(password);
    verify_password(password, &phc_hash)
}

/// The stored digest of a raw token: hex of the SHA-256 of its bytes. Fast
/// on purpose — a token's defense is its 128 bits of entropy, not hashing
/// cost — and one-way, so a leaked digest cannot be replayed as a session.
pub fn hash_token(token: &str) -> (r: String)
    ensures
        r@ == hash_token_spec(token@),
        r@.len() == 64,
{
    let digest = sha256(token.as_bytes());
    hex_encode(digest.as_slice())
}

/// A fresh opaque session token: 16 random bytes, hex-encoded to 32
/// characters.
pub fn generate_token() -> (r: String)
    ensures
        exists|b: Seq<u8>| b.len() == 16 && r@ == hex_of(b),
        r@.len() == 32,
{
    let raw = random_bytes_16();
    hex_encode(raw.as_slice())
}

/// A fresh raw token together with its stored digest: the raw value is
/// handed to the client exactly once, the digest is what the store keeps.
pub fn generate_and_hash_auth_token() -> (r: (String, String))
    ensures
        exists|b: Seq<u8>| b.len() == 16 && r.0@ == hex_of(b),
        r.0@.len() == 32,
        r.1@ == hash_token_spec(r.0@),
{
    let token = generate_token();
    let token_hash = hash_token(token.as_str());
    (token, token_hash)
}

} // verus!
