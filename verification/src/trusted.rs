//! The boundary to the outside crates the library leans on: identifier
//! formatting and parsing, hex encoding, entropy, the clock, and random
//! token minting. Each function here is believed, not verified; its
//! contract states only what the called crate's source or documentation
//! plainly gives.

use vstd::prelude::*;

use argon2::password_hash::rand_core::RngCore;

use crate::encoding::dec_of_int;
use crate::encoding::hex_of;
use crate::encoding::uuid_chars;

verus! {

/// What uuid's parser returns for a string: the identifier, or nothing
/// where the string is not one of the uuid forms it accepts.
pub uninterp spec fn uuid_parse_of(s: Seq<char>) -> Option<u128>;

/// Relies on uuid::Uuid::hyphenated and its Display implementation: the
/// lowercase hex digits of the identifier's 16 big-endian bytes, split
/// 8-4-4-4-12 by hyphens, exactly `uuid_chars`; uuid::Uuid::parse_str
/// takes this form back to the same identifier.
#[verifier::external_body]
pub fn uuid_to_string(id: u128) -> (r: String)
    ensures
        r@ == uuid_chars(id),
        r.is_ascii(),
        uuid_parse_of(r@) == Some(id),
{
    uuid::Uuid::from_u128(id).hyphenated().to_string()
}

/// Relies on uuid::Uuid::parse_str: the result depends on the characters
/// alone.
#[verifier::external_body]
pub fn uuid_parse(s: &str) -> (r: Option<u128>)
    ensures
        r == uuid_parse_of(s@),
{
    uuid::Uuid::parse_str(s).ok().map(|u| u.as_u128())
}

/// Relies on uuid::Uuid::new_v4: a freshly drawn random identifier, about
/// which nothing can be promised.
#[verifier::external_body]
pub fn uuid_new_v4() -> (r: u128) {
    uuid::Uuid::new_v4().as_u128()
}

/// Relies on hex::encode: the lowercase hex digits of the bytes, two per
/// byte, high nibble first, all ascii.
#[verifier::external_body]
pub fn hex_encode(bytes: &[u8]) -> (r: String)
    ensures
        r@ == hex_of(bytes@),
        r.is_ascii(),
{
    hex::encode(bytes)
}

/// Relies on rand_core::OsRng (argon2's re-export, the same entropy source
/// the password tooling uses): `n` bytes from the operating system.
#[verifier::external_body]
pub fn random_bytes(n: usize) -> (r: Vec<u8>)
    ensures
        r@.len() == n,
{
    let mut buf = vec![0u8; n];
    argon2::password_hash::rand_core::OsRng.fill_bytes(&mut buf);
    buf
}

/// Relies on chrono::Utc::now: the clock, about which nothing can be
/// promised.
#[verifier::external_body]
pub fn now_timestamp() -> (r: i64) {
    chrono::Utc::now().timestamp()
}

/// Relies on oauth2::CsrfToken::new_random: a fresh random token, 22
/// characters of url-safe base64 over 16 random bytes.
#[verifier::external_body]
pub fn random_csrf_token() -> (r: String)
    ensures
        r@.len() == 22,
{
    oauth2::CsrfToken::new_random().secret().to_string()
}

/// Relies on i64's std Display implementation: the decimal numeral, minus
/// sign first for a negative number.
#[verifier::external_body]
pub fn i64_to_string(n: i64) -> (r: String)
    ensures
        r@ == dec_of_int(n as int),
        r.is_ascii(),
{
    format!("{}", n)
}

} // verus!
