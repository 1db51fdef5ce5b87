//! Which files count as configuration files.

use vstd::prelude::*;
use crate::text::extension;
use crate::text::extension_of;
use crate::text::str_eq;

verus! {

/// A path leads to a configuration file where its extension is one of
/// `yml`, `yaml`, `json` and `toml`, written in small letters.
pub open spec fn is_config_path(path: Seq<char>) -> bool {
    match extension(path) {
        Some(e) => e == "yml"@ || e == "yaml"@ || e == "json"@ || e == "toml"@,
        None => false,
    }
}

/// Whether `path` leads to a configuration file.
pub fn is_config(path: &str) -> (r: bool)
    ensures
        r == is_config_path(path@),
{
    match extension_of(path) {
        Some(e) => str_eq(e, "yml") || str_eq(e, "yaml") || str_eq(e, "json") || str_eq(
            e,
            "toml",
        ),
        None => false,
    }
}

/// The SHA-256 hash of a sequence of bytes, in small hexadecimal digits.
pub uninterp spec fn sha256_hex(data: Seq<u8>) -> Seq<char>;

/// Hashes the content of a file: feeds the bytes to `sha2::Sha256` with
/// `Digest::update`, closes it with `Digest::finalize`, and writes the
/// result in small hexadecimal digits. The contract claims only that the
/// outcome is a function of the bytes: `sha256_hex` is its name.
#[verifier::external_body]
pub fn hash_file(data: &[u8]) -> (hash: String)
    ensures
        hash@ == sha256_hex(data@),
{
    let mut hasher = <sha2::Sha256 as sha2::Digest>::new();
    sha2::Digest::update(&mut hasher, data);
    format!("{:x}", sha2::Digest::finalize(hasher))
}

/// A count, or the greatest `usize` where the count is greater.
pub open spec fn capped(n: nat) -> nat {
    if n > usize::MAX {
        usize::MAX as nat
    } else {
        n
    }
}

/// Capping a sum is capping the sum of the capped.
pub proof fn lemma_capped_sum(a: nat, b: nat)
    ensures
        capped(capped(a) + b) == capped(a + b),
{
}

/// The sum of two counts, or the greatest `usize` where the sum is
/// greater.
pub fn add_capped(a: usize, b: usize) -> (r: usize)
    ensures
        r == capped((a + b) as nat),
{
    if b <= usize::MAX - a {
        a + b
    } else {
        usize::MAX
    }
}

} // verus!
