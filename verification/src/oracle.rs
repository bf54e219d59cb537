use vstd::prelude::*;

verus! {

use crate::candidate::{Candidate, hash_difficulty, difficulty_of_hash};

/// What `drillx::hash` computes for a challenge and nonce: the 16-byte
/// equihash digest, or nothing when the instance has no solution.
pub uninterp spec fn drillx_digest(challenge: Seq<u8>, nonce: u64) -> Option<Seq<u8>>;

/// The 32-byte keccak hash that `drillx::Solution::to_hash` computes from
/// a digest and the nonce it belongs to.
pub uninterp spec fn solution_hash(digest: Seq<u8>, nonce: u64) -> Seq<u8>;

/// The difficulty the oracle assigns a nonce: the leading zero bits of the
/// keccak hash of its digest. Meaningful only where a digest exists.
pub open spec fn oracle_difficulty(challenge: Seq<u8>, nonce: u64) -> u32 {
    hash_difficulty(solution_hash(drillx_digest(challenge, nonce)->0, nonce))
}

/// Relies on `drillx::hash`: its digest and hash depend on the challenge
/// and nonce alone; it errs exactly when the equihash instance has no
/// solution; and the hash it returns is the keccak value that
/// `Solution::to_hash` recomputes from the same digest and nonce (both go
/// through the same internal keccak of sorted digest plus nonce).
#[verifier::external_body]
fn drillx_hash(challenge: &[u8; 32], nonce: u64) -> (r: Option<([u8; 16], [u8; 32])>)
    ensures
        r.is_some() == drillx_digest(challenge@, nonce).is_some(),
        r matches Some(p) ==> drillx_digest(challenge@, nonce) == Some(p.0@)
            && p.1@ == solution_hash(p.0@, nonce),
{
    match drillx::hash(challenge, &nonce.to_le_bytes()) {
        Ok(hx) => Some((hx.d, hx.h)),
        Err(_) => None,
    }
}

/// Relies on `drillx::Solution::to_hash`: the keccak hash depends on the
/// digest and nonce alone.
#[verifier::external_body]
fn solution_hash_bytes(digest: &[u8], nonce: u64) -> (h: [u8; 32])
    requires
        digest@.len() == 16,
    ensures
        h@ == solution_hash(digest@, nonce),
{
    let mut d = [0u8; 16];
    d.copy_from_slice(digest);
    drillx::Solution::new(d, nonce.to_le_bytes()).to_hash().h
}

/// Hash one nonce against the challenge: the full candidate the oracle
/// yields for it, or `None` where the oracle has no solution.
pub fn hash_candidate(challenge: &[u8; 32], nonce: u64) -> (r: Option<Candidate>)
    ensures
        r.is_some() == drillx_digest(challenge@, nonce).is_some(),
        r matches Some(c) ==> drillx_digest(challenge@, nonce) == Some(c.digest@)
            && c.nonce == nonce
            && c.difficulty == oracle_difficulty(challenge@, nonce),
{
    match drillx_hash(challenge, nonce) {
        Some((digest, hash)) => {
            let difficulty = difficulty_of_hash(&hash);
            Some(Candidate { nonce, digest, difficulty })
        }
        None => None,
    }
}

/// Difficulty of a digest taken from a batch result, scored for the nonce
/// of its slot.
pub fn digest_difficulty(digest: &[u8], nonce: u64) -> (d: u32)
    requires
        digest@.len() == 16,
    ensures
        d == hash_difficulty(solution_hash(digest@, nonce)),
{
    let h = solution_hash_bytes(digest, nonce);
    difficulty_of_hash(&h)
}

} // verus!
