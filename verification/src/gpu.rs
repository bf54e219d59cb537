use vstd::prelude::*;

verus! {

use vstd::slice::slice_subrange;
use crate::candidate::{WorkerOutcome, is_zero_digest, slice_is_zero, hash_difficulty};
use crate::oracle::{solution_hash, digest_difficulty};

/// Digest slot `i` of a flat batch buffer: bytes 16·i up to 16·(i+1).
pub open spec fn batch_slot(buf: Seq<u8>, i: int) -> Seq<u8> {
    buf.subrange(16 * i, 16 * i + 16)
}

/// The difficulty slot `i` scores for the nonce it stands for.
pub open spec fn slot_difficulty(buf: Seq<u8>, start: u64, i: int) -> u32 {
    hash_difficulty(solution_hash(batch_slot(buf, i), (start + i) as u64))
}

/// Fold over the first `count` slots of a batch buffer, in slot order:
/// all-zero digests are skipped whatever they would score; a strictly
/// greater difficulty replaces the running best.
pub open spec fn batch_result(buf: Seq<u8>, start: u64, count: nat, best: WorkerOutcome) -> WorkerOutcome
    decreases count,
{
    if count == 0 {
        best
    } else {
        let prev = batch_result(buf, start, (count - 1) as nat, best);
        let i = count - 1;
        if !is_zero_digest(batch_slot(buf, i)) && slot_difficulty(buf, start, i)
            > prev.difficulty {
            WorkerOutcome { nonce: (start + i) as u64, difficulty: slot_difficulty(buf, start, i) }
        } else {
            prev
        }
    }
}

/// A batch fold never lowers the difficulty it starts from.
pub proof fn lemma_batch_monotone(buf: Seq<u8>, start: u64, count: nat, best: WorkerOutcome)
    ensures
        batch_result(buf, start, count, best).difficulty >= best.difficulty,
    decreases count,
{
    if count != 0 {
        lemma_batch_monotone(buf, start, (count - 1) as nat, best);
    }
}

/// Law: a slot holding the all-zero digest is never selected, whatever it
/// would have scored — the fold returns either the best it started from
/// or the score of some non-zero slot.
pub proof fn lemma_zero_digest_never_selected(
    buf: Seq<u8>,
    start: u64,
    count: nat,
    best: WorkerOutcome,
)
    ensures
        batch_result(buf, start, count, best) == best || exists|i: int|
            0 <= i < count && !is_zero_digest(#[trigger] batch_slot(buf, i)) && batch_result(
                buf,
                start,
                count,
                best,
            ) == (WorkerOutcome {
                nonce: (start + i) as u64,
                difficulty: slot_difficulty(buf, start, i),
            }),
    decreases count,
{
    if count != 0 {
        lemma_zero_digest_never_selected(buf, start, (count - 1) as nat, best);
        let prev = batch_result(buf, start, (count - 1) as nat, best);
        let i = count - 1;
        if !is_zero_digest(batch_slot(buf, i)) && slot_difficulty(buf, start, i)
            > prev.difficulty {
            assert(!is_zero_digest(batch_slot(buf, i)) && batch_result(buf, start, count, best)
                == (WorkerOutcome {
                nonce: (start + i) as u64,
                difficulty: slot_difficulty(buf, start, i),
            }));
        }
    }
}

/// Decode one batch of digests exactly as the GPU loop does: slot by
/// slot, skipping the all-zero ones, keeping each strictly improving
/// difficulty as it appears.
pub fn scan_batch(buf: &Vec<u8>, start_nonce: u64, batch_size: usize, best: WorkerOutcome) -> (r:
    WorkerOutcome)
    requires
        buf@.len() == 16 * batch_size,
        start_nonce + batch_size <= u64::MAX + 1,
    ensures
        r == batch_result(buf@, start_nonce, batch_size as nat, best),
{
    let buf_len: usize = buf.len();
    let mut cur = best;
    let mut i: usize = 0;
    while i < batch_size
        invariant
            0 <= i <= batch_size,
            buf@.len() == 16 * batch_size,
            buf_len == buf@.len(),
            start_nonce + batch_size <= u64::MAX + 1,
            cur == batch_result(buf@, start_nonce, i as nat, best),
        decreases batch_size - i,
    {
        let slot = slice_subrange(buf.as_slice(), 16 * i, 16 * i + 16);
        if !slice_is_zero(slot) {
            let nonce = start_nonce + (i as u64);
            let d = digest_difficulty(slot, nonce);
            if d > cur.difficulty {
                cur = WorkerOutcome { nonce, difficulty: d };
            }
        }
        i = i + 1;
    }
    cur
}

/// The GPU loop between two batch calls: the next batch's start nonce and
/// the best outcome recorded so far.
#[derive(Clone, Copy, Debug, PartialEq, Eq, Structural)]
pub struct GpuState {
    pub next_nonce: u64,
    pub best: WorkerOutcome,
}

/// One round of the GPU loop, applied to the flat digest buffer one batch
/// call returned. A set termination signal freezes the state — the loop
/// never reports a higher difficulty than what was recorded when the
/// signal fired. Otherwise the batch is folded in, the start nonce
/// advances by the batch size, and the loop asks to stop once the
/// deadline has passed and the best clears the minimum difficulty.
pub fn gpu_round(
    state: GpuState,
    termination: bool,
    buf: &Vec<u8>,
    batch_size: usize,
    deadline_reached: bool,
    min_difficulty: u32,
) -> (r: (GpuState, bool))
    requires
        buf@.len() == 16 * batch_size,
        state.next_nonce + batch_size <= u64::MAX,
    ensures
        termination ==> r == ((state, true)),
        !termination ==> r.0.best == batch_result(
            buf@,
            state.next_nonce,
            batch_size as nat,
            state.best,
        ) && r.0.next_nonce == state.next_nonce + batch_size && r.1 == (deadline_reached
            && r.0.best.difficulty > min_difficulty),
        r.0.best.difficulty >= state.best.difficulty,
{
    if termination {
        (state, true)
    } else {
        let best = scan_batch(buf, state.next_nonce, batch_size, state.best);
        proof {
            lemma_batch_monotone(buf@, state.next_nonce, batch_size as nat, state.best);
        }
        let stop = deadline_reached && best.difficulty > min_difficulty;
        (GpuState { next_nonce: state.next_nonce + (batch_size as u64), best }, stop)
    }
}

} // verus!
