//! SHA-256, computed by the ledger host.

use crate::bytes::bytes_eq;
use vstd::prelude::*;

verus! {

/// The SHA-256 digest of `data`.
pub uninterp spec fn sha256(data: Seq<u8>) -> Seq<u8>;

/// The number of bytes in a SHA-256 digest.
pub const DIGEST_LEN: usize = 32;

/// The longest input that is hashed. A fresh host meters its work against a
/// budget of a hundred million instructions and forty megabytes; hashing an
/// input of this size takes some fifty-five million instructions and one
/// megabyte.
pub const MAX_HASH_INPUT: usize = 1_000_000;

/// Calls `soroban_sdk::crypto::Crypto::sha256` on a fresh host environment.
///
/// Trusted: the result is the SHA-256 digest of `data`, which is 32 bytes
/// long (the host hands back a `Hash<32>`). The host charges the hashing to
/// its budget and panics when the budget is spent; the bound on the input
/// keeps the charge below the budget of a fresh environment.
#[verifier::external_body]
pub(crate) fn host_sha256(data: &Vec<u8>) -> (digest: Vec<u8>)
    requires
        data@.len() <= MAX_HASH_INPUT,
    ensures
        digest@ == sha256(data@),
        digest@.len() == DIGEST_LEN,
{
    let env = soroban_sdk::Env::default();
    let input = soroban_sdk::Bytes::from_slice(&env, data.as_slice());
    env.crypto().sha256(&input).to_array().to_vec()
}

/// The hash lock that commits to `secret`: its SHA-256 digest.
pub fn compute_hash_lock(secret: &Vec<u8>) -> (hash_lock: Vec<u8>)
    requires
        secret@.len() <= MAX_HASH_INPUT,
    ensures
        hash_lock@ == sha256(secret@),
        hash_lock@.len() == DIGEST_LEN,
{
    host_sha256(secret)
}

/// The hash lock that commits to `secret`, if the secret is short enough to be
/// hashed.
pub fn try_compute_hash_lock(secret: &Vec<u8>) -> (hash_lock: Option<Vec<u8>>)
    ensures
        hash_lock.is_some() == (secret@.len() <= MAX_HASH_INPUT),
        hash_lock matches Some(digest) ==> digest@ == sha256(secret@) && digest@.len()
            == DIGEST_LEN,
{
    if secret.len() <= MAX_HASH_INPUT {
        Some(compute_hash_lock(secret))
    } else {
        None
    }
}

/// Whether `secret` opens `hash_lock`: whether its SHA-256 digest is the hash
/// lock, byte for byte.
pub fn hash_lock_matches(secret: &Vec<u8>, hash_lock: &Vec<u8>) -> (opens: bool)
    requires
        secret@.len() <= MAX_HASH_INPUT,
    ensures
        opens == (sha256(secret@) == hash_lock@),
{
    let digest = compute_hash_lock(secret);
    bytes_eq(&digest, hash_lock)
}

} // verus!
