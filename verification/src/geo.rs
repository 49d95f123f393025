//! Cache keys for geographic search queries.

use vstd::prelude::*;
use crate::numtext::{spec_hex16, hex16_text};

verus! {

/// What `str::to_lowercase` returns: a function of the characters
/// alone.
pub uninterp spec fn lower_of(s: Seq<char>) -> Seq<char>;

/// Relies on std's `str::to_lowercase`: the result depends on the
/// input characters alone.
#[verifier::external_body]
fn lowercase(s: &str) -> (r: String)
    ensures
        r@ == lower_of(s@),
{
    s.to_lowercase()
}

/// What xxhash-rust's seedless `xxh3_64` returns for a string's UTF-8
/// bytes: a 64-bit digest, a function of the input alone.
pub uninterp spec fn xxh3_of(s: Seq<char>) -> u64;

/// Relies on xxhash-rust's `xxh3::xxh3_64`, applied to the string's
/// UTF-8 bytes.
#[verifier::external_body]
fn xxh3_hash(s: &str) -> (r: u64)
    ensures
        r == xxh3_of(s@),
{
    xxhash_rust::xxh3::xxh3_64(s.as_bytes())
}

/// The text that is hashed: both parts lower-cased, joined by `|`.
pub open spec fn spec_cache_key_raw(query: Seq<char>, location: Seq<char>) -> Seq<char> {
    lower_of(query) + "|"@ + lower_of(location)
}

/// Generate a cache key from a query and a location: both parts are
/// lower-cased, joined with `|`, hashed, and the digest written as 16
/// lower-case hexadecimal digits.
pub fn fast_cache_key(query: &str, location: &str) -> (r: String)
    ensures
        r@ == spec_hex16(xxh3_of(spec_cache_key_raw(query@, location@))),
{
    let mut raw = lowercase(query);
    raw.append("|");
    raw.append(lowercase(location).as_str());
    let h = xxh3_hash(raw.as_str());
    hex16_text(h)
}

} // verus!
