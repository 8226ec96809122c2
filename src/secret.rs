use sha2::{Digest, Sha256};
use vstd::prelude::*;

verus! {

/// The lower-case hex SHA-256 digest of the UTF-8 encoding of `s`.
pub uninterp spec fn sha256_hex(s: Seq<char>) -> Seq<char>;

/// Relies on sha2's `Sha256::digest`, printed with `{:x}`: the digest depends on the
/// input alone.
#[verifier::external_body]
pub(crate) fn hash_token(raw: &str) -> (r: String)
    ensures
        r@ == sha256_hex(raw@),
{
    format!("{:x}", Sha256::digest(raw.as_bytes()))
}

/// Relies on uuid's `Uuid::new_v4` and its hyphenated `to_string`: a fresh random
/// value, of which nothing further is promised.
#[verifier::external_body]
pub(crate) fn random_secret() -> (r: String) {
    uuid::Uuid::new_v4().to_string()
}

/// Relies on chrono's `Utc::now().timestamp()`: the current Unix time in seconds, of
/// which nothing further is promised.
#[verifier::external_body]
pub(crate) fn unix_now() -> (r: i64) {
    chrono::Utc::now().timestamp()
}

} // verus!
