use vstd::prelude::*;

verus! {

use vstd::std_specs::bits::u8_leading_zeros;

/// A proof-of-work candidate: the nonce that produced it, the 16-byte
/// digest the oracle returned for it, and the difficulty score of that
/// digest (higher is better).
#[derive(Clone, Copy, Debug, PartialEq, Eq)]
pub struct Candidate {
    pub nonce: u64,
    pub digest: [u8; 16],
    pub difficulty: u32,
}

/// What one compute resource (the CPU pool or the GPU loop) reports at the
/// end of a search episode: its best nonce and that nonce's difficulty.
#[derive(Clone, Copy, Debug, PartialEq, Eq, Structural)]
pub struct WorkerOutcome {
    pub nonce: u64,
    pub difficulty: u32,
}

/// An all-zero digest marks an empty slot in a batch result: it is invalid
/// and must never be selected.
pub open spec fn is_zero_digest(d: Seq<u8>) -> bool {
    forall|k: int| 0 <= k < d.len() ==> d[k] == 0u8
}

pub fn digest_is_zero(d: &[u8; 16]) -> (r: bool)
    ensures
        r == is_zero_digest(d@),
{
    slice_is_zero(d.as_slice())
}

pub fn slice_is_zero(d: &[u8]) -> (r: bool)
    ensures
        r == is_zero_digest(d@),
{
    let mut k: usize = 0;
    while k < d.len()
        invariant
            0 <= k <= d@.len(),
            forall|j: int| 0 <= j < k ==> d@[j] == 0u8,
        decreases d@.len() - k,
    {
        if *vstd::slice::slice_index_get(d, k) != 0 {
            return false;
        }
        k = k + 1;
    }
    true
}

/// Number of leading zero bits of a hash, scanned byte by byte from the
/// front: whole zero bytes contribute eight bits each, the first non-zero
/// byte contributes its own leading zeros, and nothing after it counts.
pub open spec fn leading_zero_bits(h: Seq<u8>) -> int
    decreases h.len(),
{
    if h.len() == 0 {
        0
    } else if h[0] == 0u8 {
        8 + leading_zero_bits(h.drop_first())
    } else {
        u8_leading_zeros(h[0]) as int
    }
}

/// Skipping a run of leading zero bytes accounts for exactly eight bits each.
proof fn lemma_leading_zero_bits_prefix(h: Seq<u8>, i: int)
    requires
        0 <= i <= h.len(),
        forall|k: int| 0 <= k < i ==> h[k] == 0u8,
    ensures
        leading_zero_bits(h) == 8 * i + leading_zero_bits(h.skip(i)),
    decreases i,
{
    if i == 0 {
        assert(h.skip(0) =~= h);
    } else {
        lemma_leading_zero_bits_prefix(h.drop_first(), i - 1);
        assert(h.drop_first().skip(i - 1) =~= h.skip(i));
    }
}

/// The difficulty score of a 32-byte hash: its count of leading zero bits
/// (clamped into `u32`, which a 32-byte hash can never reach).
pub open spec fn hash_difficulty(h: Seq<u8>) -> u32 {
    if leading_zero_bits(h) > u32::MAX {
        u32::MAX
    } else {
        leading_zero_bits(h) as u32
    }
}

pub fn difficulty_of_hash(h: &[u8; 32]) -> (d: u32)
    ensures
        d == hash_difficulty(h@),
{
    broadcast use vstd::std_specs::bits::group_bits_axioms;

    let mut count: u32 = 0;
    let mut i: usize = 0;
    while i < 32
        invariant
            0 <= i <= 32,
            count == 8 * i,
            forall|k: int| 0 <= k < i ==> h@[k] == 0u8,
        decreases 32 - i,
    {
        let lz: u32 = h[i].leading_zeros();
        count = count + lz;
        if lz < 8 {
            proof {
                lemma_leading_zero_bits_prefix(h@, i as int);
                assert(h@.skip(i as int)[0] == h@[i as int]);
                assert(h@[i as int] != 0u8);
            }
            return count;
        }
        proof {
            assert(h@[i as int] == 0u8);
        }
        i = i + 1;
    }
    proof {
        lemma_leading_zero_bits_prefix(h@, 32);
        assert(h@.skip(32).len() == 0);
    }
    count
}

} // verus!
