use vstd::prelude::*;

verus! {

use crate::candidate::WorkerOutcome;
use crate::oracle::{drillx_digest, oracle_difficulty, hash_candidate};

/// One oracle probe folded into a worker's running best: a strictly
/// greater difficulty replaces it; anything else, or a nonce with no
/// solution, leaves it unchanged.
pub open spec fn scan_step(challenge: Seq<u8>, nonce: u64, best: WorkerOutcome) -> WorkerOutcome {
    if drillx_digest(challenge, nonce).is_some() && oracle_difficulty(challenge, nonce)
        > best.difficulty {
        WorkerOutcome { nonce, difficulty: oracle_difficulty(challenge, nonce) }
    } else {
        best
    }
}

/// The running best after probing `count` consecutive nonces upward from
/// `start`.
pub open spec fn scan_result(
    challenge: Seq<u8>,
    start: u64,
    count: nat,
    best: WorkerOutcome,
) -> WorkerOutcome
    recommends
        start + count <= u64::MAX + 1,
    decreases count,
{
    if count == 0 {
        best
    } else {
        scan_step(
            challenge,
            (start + count - 1) as u64,
            scan_result(challenge, start, (count - 1) as nat, best),
        )
    }
}

/// A scan never lowers the difficulty it starts from.
pub proof fn lemma_scan_monotone(challenge: Seq<u8>, start: u64, count: nat, best: WorkerOutcome)
    ensures
        scan_result(challenge, start, count, best).difficulty >= best.difficulty,
    decreases count,
{
    if count != 0 {
        lemma_scan_monotone(challenge, start, (count - 1) as nat, best);
    }
}

/// Probe `count` consecutive nonces from `start`, folding each into the
/// running best exactly as the sequential worker does.
pub fn scan_chunk(challenge: &[u8; 32], start: u64, count: u64, best: WorkerOutcome) -> (r:
    WorkerOutcome)
    requires
        start + count <= u64::MAX + 1,
    ensures
        r == scan_result(challenge@, start, count as nat, best),
{
    let mut cur = best;
    let mut i: u64 = 0;
    while i < count
        invariant
            0 <= i <= count,
            start + count <= u64::MAX + 1,
            cur == scan_result(challenge@, start, i as nat, best),
        decreases count - i,
    {
        let nonce = start + i;
        if let Some(c) = hash_candidate(challenge, nonce) {
            if c.difficulty > cur.difficulty {
                cur = WorkerOutcome { nonce: c.nonce, difficulty: c.difficulty };
            }
        }
        i = i + 1;
        proof {
            assert(cur == scan_result(challenge@, start, i as nat, best));
        }
    }
    cur
}

/// What a CPU worker decides at a check interval.
#[derive(Clone, Copy, Debug, PartialEq, Eq, Structural)]
pub enum WorkerDecision {
    /// Keep scanning.
    Continue,
    /// Stop now and report the current best.
    Stop,
    /// Stop now and raise the pool-wide minimum-met flag for the siblings.
    StopAndSignal,
}

/// The stop rule a worker evaluates at every check interval: the shared
/// termination signal stops it at once, then a sibling's minimum-met flag;
/// past the deadline it stops and signals once its best clears the minimum
/// difficulty, and otherwise it keeps scanning, deadline or not.
pub open spec fn spec_worker_decision(
    termination: bool,
    minimum_met: bool,
    deadline_reached: bool,
    best_difficulty: u32,
    min_difficulty: u32,
) -> WorkerDecision {
    if termination {
        WorkerDecision::Stop
    } else if minimum_met {
        WorkerDecision::Stop
    } else if deadline_reached && best_difficulty > min_difficulty {
        WorkerDecision::StopAndSignal
    } else {
        WorkerDecision::Continue
    }
}

pub fn worker_decision(
    termination: bool,
    minimum_met: bool,
    deadline_reached: bool,
    best_difficulty: u32,
    min_difficulty: u32,
) -> (d: WorkerDecision)
    ensures
        d == spec_worker_decision(
            termination,
            minimum_met,
            deadline_reached,
            best_difficulty,
            min_difficulty,
        ),
{
    if termination {
        WorkerDecision::Stop
    } else if minimum_met {
        WorkerDecision::Stop
    } else if deadline_reached && best_difficulty > min_difficulty {
        WorkerDecision::StopAndSignal
    } else {
        WorkerDecision::Continue
    }
}

/// A CPU worker between two check intervals: the next nonce it will probe
/// and the best outcome recorded so far.
#[derive(Clone, Copy, Debug, PartialEq, Eq, Structural)]
pub struct WorkerState {
    pub next_nonce: u64,
    pub best: WorkerOutcome,
}

/// What a worker observes of the shared flags and the clock at one check
/// interval.
#[derive(Clone, Copy, Debug, PartialEq, Eq, Structural)]
pub struct FlagView {
    pub termination: bool,
    pub minimum_met: bool,
    pub deadline_reached: bool,
}

/// The mathematical mirror of `worker_round`: the stop rule first, and
/// only on `Continue` the next `chunk` nonces folded in.
pub open spec fn spec_worker_round(
    challenge: Seq<u8>,
    state: WorkerState,
    flags: FlagView,
    min_difficulty: u32,
    chunk: u64,
) -> (WorkerState, WorkerDecision) {
    let d = spec_worker_decision(
        flags.termination,
        flags.minimum_met,
        flags.deadline_reached,
        state.best.difficulty,
        min_difficulty,
    );
    if d == WorkerDecision::Continue {
        (
            WorkerState {
                next_nonce: (state.next_nonce + chunk) as u64,
                best: scan_result(challenge, state.next_nonce, chunk as nat, state.best),
            },
            d,
        )
    } else {
        (state, d)
    }
}

/// One check-interval round of a CPU worker: evaluate the stop rule on the
/// flags as observed, and only on `Continue` probe the next `chunk`
/// nonces. Once the shared termination signal is observed, the state is
/// left exactly as it was — the worker never reports a higher difficulty
/// than what was recorded when the signal fired.
pub fn worker_round(
    challenge: &[u8; 32],
    state: WorkerState,
    flags: FlagView,
    min_difficulty: u32,
    chunk: u64,
) -> (r: (WorkerState, WorkerDecision))
    requires
        state.next_nonce + chunk <= u64::MAX,
    ensures
        r == spec_worker_round(challenge@, state, flags, min_difficulty, chunk),
        flags.termination ==> r.1 == WorkerDecision::Stop && r.0 == state,
        r.1 != WorkerDecision::Continue ==> r.0 == state,
        r.0.best.difficulty >= state.best.difficulty,
{
    let d = worker_decision(
        flags.termination,
        flags.minimum_met,
        flags.deadline_reached,
        state.best.difficulty,
        min_difficulty,
    );
    match d {
        WorkerDecision::Continue => {
            let best = scan_chunk(challenge, state.next_nonce, chunk, state.best);
            proof {
                lemma_scan_monotone(challenge@, state.next_nonce, chunk as nat, state.best);
            }
            (WorkerState { next_nonce: state.next_nonce + chunk, best }, d)
        },
        _ => (state, d),
    }
}

/// The worker's state after the first `k` check intervals of an episode
/// whose interval `t` observed the flags `flags[t]`: rounds apply in
/// order, and from the first round that decides to stop, nothing changes.
pub open spec fn episode_state(
    challenge: Seq<u8>,
    start: WorkerState,
    flags: Seq<FlagView>,
    min_difficulty: u32,
    chunk: u64,
    k: int,
) -> WorkerState
    decreases k,
{
    if k <= 0 {
        start
    } else {
        let prev = episode_state(challenge, start, flags, min_difficulty, chunk, k - 1);
        if episode_stopped(challenge, start, flags, min_difficulty, chunk, k - 1) {
            prev
        } else {
            spec_worker_round(challenge, prev, flags[k - 1], min_difficulty, chunk).0
        }
    }
}

/// Whether the worker has decided to stop within the first `k` intervals.
pub open spec fn episode_stopped(
    challenge: Seq<u8>,
    start: WorkerState,
    flags: Seq<FlagView>,
    min_difficulty: u32,
    chunk: u64,
    k: int,
) -> bool
    decreases k,
{
    if k <= 0 {
        false
    } else {
        episode_stopped(challenge, start, flags, min_difficulty, chunk, k - 1)
            || spec_worker_round(
            challenge,
            episode_state(challenge, start, flags, min_difficulty, chunk, k - 1),
            flags[k - 1],
            min_difficulty,
            chunk,
        ).1 != WorkerDecision::Continue
    }
}

/// Law: once the shared termination signal is observed at check interval
/// `t`, the worker is stopped and every later state of the episode equals
/// the state recorded at that moment — no worker reports a higher
/// difficulty after the signal than what was recorded when it fired.
pub proof fn lemma_termination_freezes_episode(
    challenge: Seq<u8>,
    start: WorkerState,
    flags: Seq<FlagView>,
    min_difficulty: u32,
    chunk: u64,
    t: int,
    k: int,
)
    requires
        0 <= t < k <= flags.len(),
        flags[t].termination,
    ensures
        episode_state(challenge, start, flags, min_difficulty, chunk, k) == episode_state(
            challenge,
            start,
            flags,
            min_difficulty,
            chunk,
            t,
        ),
        episode_stopped(challenge, start, flags, min_difficulty, chunk, k),
    decreases k,
{
    if k == t + 1 {
        let prev = episode_state(challenge, start, flags, min_difficulty, chunk, t);
        assert(spec_worker_round(challenge, prev, flags[t], min_difficulty, chunk) == ((
            prev,
            WorkerDecision::Stop,
        )));
    } else {
        lemma_termination_freezes_episode(challenge, start, flags, min_difficulty, chunk, t, k - 1);
    }
}

/// The outcome a pool starts from: the zero nonce with difficulty zero,
/// reported unchanged when nothing better is found.
pub open spec fn initial_outcome() -> WorkerOutcome {
    WorkerOutcome { nonce: 0, difficulty: 0 }
}

/// Fold the joined workers' outcomes in index order: a strictly greater
/// difficulty replaces the running winner, so ties keep the earlier worker.
pub open spec fn aggregate(outs: Seq<WorkerOutcome>) -> WorkerOutcome
    decreases outs.len(),
{
    if outs.len() == 0 {
        initial_outcome()
    } else {
        let prev = aggregate(outs.drop_last());
        if outs.last().difficulty > prev.difficulty {
            outs.last()
        } else {
            prev
        }
    }
}

/// Aggregate the outcomes of the workers that could be joined, in worker
/// order; a worker that failed simply has no entry here.
pub fn aggregate_outcomes(outs: &Vec<WorkerOutcome>) -> (r: WorkerOutcome)
    ensures
        r == aggregate(outs@),
{
    let mut cur = WorkerOutcome { nonce: 0, difficulty: 0 };
    let mut i: usize = 0;
    while i < outs.len()
        invariant
            0 <= i <= outs.len(),
            cur == aggregate(outs@.take(i as int)),
        decreases outs.len() - i,
    {
        let o = outs[i];
        if o.difficulty > cur.difficulty {
            cur = o;
        }
        i = i + 1;
        proof {
            assert(outs@.take(i as int).drop_last() =~= outs@.take(i - 1));
            assert(outs@.take(i as int).last() == outs@[i - 1]);
        }
    }
    proof {
        assert(outs@.take(outs@.len() as int) =~= outs@);
    }
    cur
}

/// Law: aggregation selects the first outcome bearing the maximal
/// difficulty. Every reported difficulty is at most the winner's, and the
/// winner is either the untouched initial outcome or a reported outcome
/// that no earlier worker matches.
pub proof fn lemma_aggregate_first_max(outs: Seq<WorkerOutcome>)
    ensures
        forall|k: int| 0 <= k < outs.len() ==> outs[k].difficulty <= aggregate(outs).difficulty,
        aggregate(outs) == initial_outcome() || exists|k: int|
            0 <= k < outs.len() && outs[k] == aggregate(outs) && (forall|j: int|
                0 <= j < k ==> outs[j].difficulty < aggregate(outs).difficulty),
    decreases outs.len(),
{
    if outs.len() != 0 {
        let d = outs.drop_last();
        lemma_aggregate_first_max(d);
        let prev = aggregate(d);
        let agg = aggregate(outs);
        assert(forall|j: int| 0 <= j < d.len() ==> outs[j] == d[j]);
        assert forall|k: int| 0 <= k < outs.len() implies outs[k].difficulty
            <= agg.difficulty by {
            if k < outs.len() - 1 {
                assert(d[k].difficulty <= prev.difficulty);
            }
        }
        if outs.last().difficulty > prev.difficulty {
            let k = outs.len() - 1;
            assert(outs[k] == agg);
            assert forall|j: int| 0 <= j < k implies outs[j].difficulty < agg.difficulty by {
                assert(d[j].difficulty <= prev.difficulty);
            }
            assert(0 <= k < outs.len() && outs[k] == agg && (forall|j: int|
                0 <= j < k ==> outs[j].difficulty < agg.difficulty));
        } else if prev != initial_outcome() {
            let k = choose|k: int|
                0 <= k < d.len() && d[k] == prev && (forall|j: int|
                    0 <= j < k ==> d[j].difficulty < prev.difficulty);
            assert(outs[k] == agg);
            assert forall|j: int| 0 <= j < k implies outs[j].difficulty < agg.difficulty by {
                assert(d[j].difficulty < prev.difficulty);
            }
            assert(0 <= k < outs.len() && outs[k] == agg && (forall|j: int|
                0 <= j < k ==> outs[j].difficulty < agg.difficulty));
        }
    }
}

} // verus!
