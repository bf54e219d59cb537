use vstd::prelude::*;

verus! {

use crate::candidate::Candidate;
use crate::oracle::{drillx_digest, oracle_difficulty, hash_candidate};

/// Arbitration between the two resources' candidates: the GPU candidate
/// wins only with strictly greater difficulty; ties and everything else
/// keep the CPU candidate.
pub fn arbitrate(cpu: Candidate, gpu: Candidate) -> (w: Candidate)
    ensures
        w == (if gpu.difficulty > cpu.difficulty {
            gpu
        } else {
            cpu
        }),
{
    if gpu.difficulty > cpu.difficulty {
        gpu
    } else {
        cpu
    }
}

/// What the scheduler does once both resources have joined: hash each
/// side's winning nonce afresh rather than trusting any cached digest,
/// then let the GPU side win only on strictly greater difficulty. `None`
/// exactly when the oracle has no solution for one of the two nonces.
pub fn arbitrate_nonces(challenge: &[u8; 32], cpu_nonce: u64, gpu_nonce: u64) -> (r: Option<
    Candidate,
>)
    ensures
        r.is_some() == (drillx_digest(challenge@, cpu_nonce).is_some() && drillx_digest(
            challenge@,
            gpu_nonce,
        ).is_some()),
        r matches Some(w) ==> {
            let cd = oracle_difficulty(challenge@, cpu_nonce);
            let gd = oracle_difficulty(challenge@, gpu_nonce);
            &&& w.nonce == (if gd > cd {
                gpu_nonce
            } else {
                cpu_nonce
            })
            &&& w.difficulty == (if gd > cd {
                gd
            } else {
                cd
            })
            &&& drillx_digest(challenge@, w.nonce) == Some(w.digest@)
        },
{
    let cpu = hash_candidate(challenge, cpu_nonce);
    let gpu = hash_candidate(challenge, gpu_nonce);
    match (cpu, gpu) {
        (Some(c), Some(g)) => Some(arbitrate(c, g)),
        _ => None,
    }
}

} // verus!
