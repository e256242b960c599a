//! Which peer owns a key: the seahash of the key's UTF-8 bytes, reduced
//! modulo the number of peers.
use vstd::prelude::*;
use vstd::utf8::encode_utf8;

verus! {

/// The 64-bit seahash of a byte sequence (seahash's fixed default seeds).
pub uninterp spec fn seahash_of(bytes: Seq<u8>) -> u64;

/// Relies on `seahash::hash`: a pure function of the bytes, with seeds fixed
/// in the crate, so every node computes the same value for the same key.
#[verifier::external_body]
fn hash_bytes(bytes: &[u8]) -> (r: u64)
    ensures
        r == seahash_of(bytes@),
{
    seahash::hash(bytes)
}

/// The hash of a key: seahash over its UTF-8 encoding.
pub open spec fn key_hash(key: Seq<char>) -> u64 {
    seahash_of(encode_utf8(key))
}

/// The index of the peer that owns `key` among `n` peers.
pub open spec fn owner_of(key: Seq<char>, n: nat) -> nat
    recommends
        n > 0,
{
    (key_hash(key) as nat) % n
}

/// Index into `peers` of the node that owns `key`.
pub fn owner_for_key(key: &str, peers: &[String]) -> (r: usize)
    requires
        peers@.len() > 0,
    ensures
        r == owner_of(key@, peers@.len()),
        r < peers@.len(),
{
    let h = hash_bytes(key.as_bytes());
    let n = peers.len() as u64;
    (h % n) as usize
}

/// Ownership is a function of the key and the number of peers alone: equal
/// inputs give the same owner, and that owner is a valid index.
pub proof fn lemma_owner_deterministic(k1: Seq<char>, k2: Seq<char>, n1: nat, n2: nat)
    requires
        k1 == k2,
        n1 == n2,
        n1 > 0,
    ensures
        owner_of(k1, n1) == owner_of(k2, n2),
        owner_of(k1, n1) < n1,
{
}

/// With a single peer, that peer owns every key.
pub proof fn lemma_single_peer_owns_all(key: Seq<char>)
    ensures
        owner_of(key, 1) == 0,
{
}

} // verus!
