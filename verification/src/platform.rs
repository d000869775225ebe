//! What the library takes from outside: a digest, fresh identifiers and the
//! wall clock from outside crates, and two operations on text from the
//! standard library. Nothing here is proved; each contract is what the
//! documentation of the function that is called says.

use sha2::Digest;
use vstd::prelude::*;

verus! {

/// Identifier of a team, proposal, raffle, vote or epoch: the 128 bits of a UUID.
pub type Id = u128;

/// An instant, in seconds since 1970-01-01T00:00:00Z.
pub type Timestamp = i64;

/// A calendar day, in days since 1970-01-01.
pub type Date = i32;

/// The SHA-256 digest of a byte string, as `sha2::Sha256` computes it.
pub uninterp spec fn sha256_digest(data: Seq<u8>) -> Seq<u8>;

/// Calls `sha2::Sha256::digest` (the one-shot method of `sha2::Digest`) and
/// copies the output array into a vector. The digest is a function of the
/// bytes alone and SHA-256 always yields 32 bytes.
#[verifier::external_body]
pub(crate) fn sha256(data: &[u8]) -> (digest: Vec<u8>)
    ensures
        digest@ == sha256_digest(data@),
        digest@.len() == 32,
{
    sha2::Sha256::digest(data).to_vec()
}

/// Calls `uuid::Uuid::new_v4` and returns the identifier's 128 bits
/// (`Uuid::as_u128`). The value is random: nothing is claimed of it. The
/// call does not return where the operating system gives no random bytes.
#[verifier::external_body]
pub(crate) fn fresh_id() -> (id: Id)
{
    uuid::Uuid::new_v4().as_u128()
}

/// Calls `chrono::Utc::now` and returns the instant in whole seconds
/// (`DateTime::timestamp`). The value is the machine's clock: nothing is
/// claimed of it. The call panics where that clock stands before 1970.
#[verifier::external_body]
pub(crate) fn current_timestamp() -> (now: Timestamp)
{
    chrono::Utc::now().timestamp()
}

/// The text in lower case, as `str::to_lowercase` gives it.
pub uninterp spec fn lowercase(text: Seq<char>) -> Seq<char>;

/// Calls `str::to_lowercase`. The result is a function of the characters
/// alone: the mapping is that of the Unicode tables, not of a locale.
#[verifier::external_body]
pub(crate) fn to_lowercase(text: &str) -> (lower: String)
    ensures
        lower@ == lowercase(text@),
{
    text.to_lowercase()
}

/// Calls `String::from_iter` on the characters: the string that holds them, in order.
#[verifier::external_body]
pub(crate) fn string_from_chars(chars: Vec<char>) -> (text: String)
    ensures
        text@ == chars@,
{
    String::from_iter(chars)
}

} // verus!
