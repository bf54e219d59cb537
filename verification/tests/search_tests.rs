use miner_core::candidate::{difficulty_of_hash, digest_is_zero, slice_is_zero, WorkerOutcome};
use miner_core::gpu::{gpu_round, scan_batch, GpuState};
use miner_core::oracle::{digest_difficulty, hash_candidate};
use miner_core::partition::worker_start_nonce;
use miner_core::scheduler::{arbitrate, arbitrate_nonces};
use miner_core::search::{
    aggregate_outcomes, scan_chunk, worker_decision, worker_round, FlagView, WorkerDecision,
    WorkerState,
};
use miner_core::candidate::Candidate;
use miner_core::HALF_DOMAIN;

const CHALLENGE: [u8; 32] = [155; 32];

#[test]
fn difficulty_matches_drillx() {
    let mut checked = 0;
    for nonce in 0u64..40 {
        if let Ok(hx) = drillx::hash(&CHALLENGE, &nonce.to_le_bytes()) {
            assert_eq!(difficulty_of_hash(&hx.h), hx.difficulty());
            let c = hash_candidate(&CHALLENGE, nonce).expect("oracle disagrees on success");
            assert_eq!(c.nonce, nonce);
            assert_eq!(c.digest, hx.d);
            assert_eq!(c.difficulty, hx.difficulty());
            checked += 1;
        } else {
            assert!(hash_candidate(&CHALLENGE, nonce).is_none());
        }
    }
    assert!(checked > 0, "no solvable nonce in the sample");
}

#[test]
fn scan_chunk_matches_sequential_fold() {
    let start = 0u64;
    let count = 100u64;
    let mut expected = WorkerOutcome { nonce: 0, difficulty: 0 };
    for i in 0..count {
        let nonce = start + i;
        if let Ok(hx) = drillx::hash(&CHALLENGE, &nonce.to_le_bytes()) {
            if hx.difficulty() > expected.difficulty {
                expected = WorkerOutcome { nonce, difficulty: hx.difficulty() };
            }
        }
    }
    let got = scan_chunk(&CHALLENGE, start, count, WorkerOutcome { nonce: 0, difficulty: 0 });
    assert_eq!(got, expected);
}

#[test]
fn single_thread_zero_deadline_stops_at_first_qualifying_check() {
    // A one-thread pool under an already-expired deadline with minimum
    // difficulty zero: rounds keep scanning only until a chunk leaves a
    // positive best, then the worker stops and signals.
    let mut state = WorkerState {
        next_nonce: worker_start_nonce(1, 0),
        best: WorkerOutcome { nonce: worker_start_nonce(1, 0), difficulty: 0 },
    };
    assert_eq!(state.next_nonce, 0);
    let mut rounds = 0;
    loop {
        let flags = FlagView { termination: false, minimum_met: false, deadline_reached: true };
        let (next, decision) = worker_round(&CHALLENGE, state, flags, 0, 100);
        rounds += 1;
        if decision != WorkerDecision::Continue {
            assert_eq!(decision, WorkerDecision::StopAndSignal);
            assert_eq!(next, state);
            assert!(state.best.difficulty > 0);
            break;
        }
        state = next;
        assert!(rounds < 50, "no positive difficulty found in a short window");
    }
    // The reported best is the sequential fold over everything scanned.
    let expected = scan_chunk(
        &CHALLENGE,
        0,
        state.next_nonce,
        WorkerOutcome { nonce: 0, difficulty: 0 },
    );
    assert_eq!(state.best, expected);
}

#[test]
fn worker_decision_cases() {
    // The termination signal stops a worker whatever else holds.
    assert_eq!(worker_decision(true, false, true, 9, 0), WorkerDecision::Stop);
    assert_eq!(worker_decision(true, true, false, 0, 5), WorkerDecision::Stop);
    // A sibling's minimum-met flag stops it too.
    assert_eq!(worker_decision(false, true, true, 9, 0), WorkerDecision::Stop);
    // Past the deadline it stops and signals once the best clears the bar.
    assert_eq!(worker_decision(false, false, true, 6, 5), WorkerDecision::StopAndSignal);
    // At the bar is not past it: it keeps scanning past the deadline.
    assert_eq!(worker_decision(false, false, true, 5, 5), WorkerDecision::Continue);
    // Before the deadline it keeps scanning.
    assert_eq!(worker_decision(false, false, false, 9, 0), WorkerDecision::Continue);
}

#[test]
fn termination_freezes_worker_state() {
    let state = WorkerState {
        next_nonce: 4200,
        best: WorkerOutcome { nonce: 17, difficulty: 9 },
    };
    let flags = FlagView { termination: true, minimum_met: false, deadline_reached: true };
    let (next, decision) = worker_round(&CHALLENGE, state, flags, 0, 100);
    assert_eq!(decision, WorkerDecision::Stop);
    assert_eq!(next, state);
}

#[test]
fn partition_tiles_lower_half() {
    for threads in [1u64, 2, 3, 7, 16] {
        let starts: Vec<u64> = (0..threads).map(|i| worker_start_nonce(threads, i)).collect();
        assert_eq!(starts[0], 0);
        for w in starts.windows(2) {
            assert!(w[0] <= w[1]);
        }
        let end = |i: usize| {
            if i + 1 == threads as usize { HALF_DOMAIN } else { starts[i + 1] }
        };
        for sample in [0u64, 1, 99, 123_456_789, HALF_DOMAIN - 1] {
            let holders = (0..threads as usize)
                .filter(|&i| starts[i] <= sample && sample < end(i))
                .count();
            assert_eq!(holders, 1, "nonce {sample} held by {holders} ranges");
        }
    }
}

#[test]
fn aggregate_keeps_first_of_ties_and_skips_nothing_reported() {
    let outs = vec![
        WorkerOutcome { nonce: 1, difficulty: 5 },
        WorkerOutcome { nonce: 2, difficulty: 5 },
        WorkerOutcome { nonce: 3, difficulty: 4 },
    ];
    assert_eq!(aggregate_outcomes(&outs), WorkerOutcome { nonce: 1, difficulty: 5 });

    let outs = vec![
        WorkerOutcome { nonce: 1, difficulty: 2 },
        WorkerOutcome { nonce: 7, difficulty: 9 },
        WorkerOutcome { nonce: 3, difficulty: 9 },
    ];
    assert_eq!(aggregate_outcomes(&outs), WorkerOutcome { nonce: 7, difficulty: 9 });

    // A pool whose workers all failed to join reports the initial outcome.
    assert_eq!(
        aggregate_outcomes(&Vec::new()),
        WorkerOutcome { nonce: 0, difficulty: 0 }
    );
}

fn digest_with_positive_difficulty(nonce: u64) -> ([u8; 16], u32) {
    for b in 1u8..=255 {
        let digest = [b; 16];
        let d = digest_difficulty(&digest, nonce);
        if d > 0 {
            return (digest, d);
        }
    }
    panic!("no digest with positive difficulty found");
}

#[test]
fn batch_scan_reports_the_one_nonzero_slot() {
    let batch_size = 1024usize;
    let start = HALF_DOMAIN;
    let offset = 37usize;
    let slot_nonce = start + offset as u64;
    let (digest, d) = digest_with_positive_difficulty(slot_nonce);
    // The library's slot score agrees with what drillx recomputes.
    let drillx_d = drillx::Solution::new(digest, slot_nonce.to_le_bytes())
        .to_hash()
        .difficulty();
    assert_eq!(d, drillx_d);

    let mut buf = vec![0u8; 16 * batch_size];
    buf[16 * offset..16 * (offset + 1)].copy_from_slice(&digest);
    let got = scan_batch(&buf, start, batch_size, WorkerOutcome { nonce: start, difficulty: 0 });
    assert_eq!(got, WorkerOutcome { nonce: slot_nonce, difficulty: d });
}

#[test]
fn all_zero_batch_selects_nothing() {
    let batch_size = 64usize;
    let buf = vec![0u8; 16 * batch_size];
    let best = WorkerOutcome { nonce: HALF_DOMAIN, difficulty: 0 };
    assert_eq!(scan_batch(&buf, HALF_DOMAIN, batch_size, best), best);
    assert!(digest_is_zero(&[0u8; 16]));
    assert!(slice_is_zero(&buf[0..16]));
    assert!(!slice_is_zero(&[0, 0, 1, 0]));
}

#[test]
fn gpu_round_advances_and_termination_freezes() {
    let batch_size = 8usize;
    let start = HALF_DOMAIN;
    let (digest, d) = digest_with_positive_difficulty(start + 2);
    let mut buf = vec![0u8; 16 * batch_size];
    buf[32..48].copy_from_slice(&digest);

    let state = GpuState { next_nonce: start, best: WorkerOutcome { nonce: start, difficulty: 0 } };
    let (next, stop) = gpu_round(state, false, &buf, batch_size, false, 0);
    assert_eq!(next.next_nonce, start + batch_size as u64);
    assert_eq!(next.best, WorkerOutcome { nonce: start + 2, difficulty: d });
    assert!(!stop);

    // Past the deadline with the minimum cleared, the loop asks to stop.
    let (_, stop) = gpu_round(next, false, &vec![0u8; 16 * batch_size], batch_size, true, 0);
    assert!(stop);

    // A set termination signal freezes the state, batch unread.
    let (frozen, stop) = gpu_round(next, true, &buf, batch_size, false, 0);
    assert_eq!(frozen, next);
    assert!(stop);
}

#[test]
fn arbitration_prefers_cpu_on_ties() {
    let cpu = Candidate { nonce: 10, digest: [1; 16], difficulty: 5 };
    let gpu = Candidate { nonce: 20, digest: [2; 16], difficulty: 5 };
    assert_eq!(arbitrate(cpu, gpu), cpu);

    let stronger_gpu = Candidate { nonce: 20, digest: [2; 16], difficulty: 6 };
    assert_eq!(arbitrate(cpu, stronger_gpu), stronger_gpu);

    let weaker_gpu = Candidate { nonce: 20, digest: [2; 16], difficulty: 4 };
    assert_eq!(arbitrate(cpu, weaker_gpu), cpu);
}

#[test]
fn arbitration_recomputes_both_sides() {
    // Two nonces the oracle can solve.
    let mut solvable = Vec::new();
    for nonce in 0u64.. {
        if drillx::hash(&CHALLENGE, &nonce.to_le_bytes()).is_ok() {
            solvable.push(nonce);
            if solvable.len() == 2 {
                break;
            }
        }
    }
    let (cpu_nonce, gpu_nonce) = (solvable[0], solvable[1]);
    let cd = drillx::hash(&CHALLENGE, &cpu_nonce.to_le_bytes()).unwrap().difficulty();
    let gd = drillx::hash(&CHALLENGE, &gpu_nonce.to_le_bytes()).unwrap().difficulty();
    let w = arbitrate_nonces(&CHALLENGE, cpu_nonce, gpu_nonce).expect("both sides solvable");
    if gd > cd {
        assert_eq!((w.nonce, w.difficulty), (gpu_nonce, gd));
    } else {
        assert_eq!((w.nonce, w.difficulty), (cpu_nonce, cd));
    }
}
