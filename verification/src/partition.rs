use vstd::prelude::*;

verus! {

use crate::HALF_DOMAIN;
use vstd::arithmetic::div_mod::{
    lemma_fundamental_div_mod,
    lemma_mod_division_less_than_divisor,
    lemma_div_pos_is_pos,
};
use vstd::arithmetic::mul::{
    lemma_mul_inequality,
    lemma_mul_is_commutative,
    lemma_mul_is_distributive_add,
    lemma_mul_nonnegative,
};

/// Where worker `i` of `threads` starts scanning: the lower half of the
/// domain is cut into `threads` contiguous ranges of one width, the
/// division's remainder widening the last range up to the boundary.
pub open spec fn worker_start(threads: u64, i: int) -> int
    recommends
        1 <= threads,
{
    (HALF_DOMAIN as int / threads as int) * i
}

/// Where worker `i`'s range ends: at the next worker's start, and at the
/// half-domain boundary for the last worker.
pub open spec fn worker_end(threads: u64, i: int) -> int
    recommends
        1 <= threads,
        0 <= i < threads,
{
    if i == threads - 1 {
        HALF_DOMAIN as int
    } else {
        worker_start(threads, i + 1)
    }
}

pub open spec fn in_worker_range(threads: u64, i: int, nonce: u64) -> bool {
    worker_start(threads, i) <= nonce < worker_end(threads, i)
}

/// Start offsets never decrease with the worker index and never pass the
/// half-domain boundary.
pub proof fn lemma_start_bounds(threads: u64, a: int, b: int)
    requires
        1 <= threads,
        0 <= a <= b <= threads,
    ensures
        0 <= worker_start(threads, a) <= worker_start(threads, b) <= HALF_DOMAIN,
{
    let h = HALF_DOMAIN as int;
    let t = threads as int;
    let w = h / t;
    lemma_div_pos_is_pos(h, t);
    lemma_mul_nonnegative(w, a);
    lemma_mul_inequality(a, b, w);
    lemma_mul_inequality(b, t, w);
    lemma_mul_is_commutative(w, a);
    lemma_mul_is_commutative(w, b);
    lemma_mul_is_commutative(w, t);
    lemma_fundamental_div_mod(h, t);
    lemma_mod_division_less_than_divisor(h, t);
}

pub fn worker_start_nonce(threads: u64, i: u64) -> (n: u64)
    requires
        1 <= threads,
        i < threads,
    ensures
        n == worker_start(threads, i as int),
        n <= HALF_DOMAIN,
{
    let width = HALF_DOMAIN / threads;
    proof {
        lemma_start_bounds(threads, i as int, threads as int);
    }
    width * i
}

/// Law: for every thread count of at least one, the worker ranges tile
/// the lower half of the nonce domain — contiguous and ordered by worker
/// index, and every nonce below the half-domain boundary lies in exactly
/// one worker's range.
pub proof fn lemma_partition_tiles(threads: u64, nonce: u64)
    requires
        1 <= threads,
        nonce < HALF_DOMAIN,
    ensures
        exists|i: int| 0 <= i < threads && in_worker_range(threads, i, nonce),
        forall|i: int, j: int|
            0 <= i < threads && 0 <= j < threads && in_worker_range(threads, i, nonce)
                && in_worker_range(threads, j, nonce) ==> i == j,
{
    let h = HALF_DOMAIN as int;
    let t = threads as int;
    let w = h / t;
    let n = nonce as int;
    lemma_div_pos_is_pos(h, t);

    // Existence: the last worker catches everything past the equal cuts.
    if w == 0 || n / w >= t - 1 {
        let i = t - 1;
        assert(worker_start(threads, i) <= n) by {
            if w == 0 {
                assert(w * i == 0) by {
                    vstd::arithmetic::mul::lemma_mul_basics(i);
                }
            } else {
                lemma_div_pos_is_pos(n, w);
                lemma_fundamental_div_mod(n, w);
                lemma_mod_division_less_than_divisor(n, w);
                lemma_mul_inequality(i, n / w, w);
                lemma_mul_is_commutative(w, i);
                lemma_mul_is_commutative(w, n / w);
            }
        }
        assert(in_worker_range(threads, i, nonce));
    } else {
        let q = n / w;
        lemma_div_pos_is_pos(n, w);
        lemma_fundamental_div_mod(n, w);
        lemma_mod_division_less_than_divisor(n, w);
        assert(w * q <= n < w * (q + 1)) by {
            lemma_mul_is_distributive_add(w, q, 1);
            vstd::arithmetic::mul::lemma_mul_basics(w);
        }
        assert(in_worker_range(threads, q, nonce));
    }

    // Uniqueness: ranges of distinct workers cannot both hold the nonce.
    assert forall|i: int, j: int|
        0 <= i < threads && 0 <= j < threads && in_worker_range(threads, i, nonce)
            && in_worker_range(threads, j, nonce) implies i == j by {
        if i < j {
            lemma_start_bounds(threads, i + 1, j);
            assert(worker_end(threads, i) <= worker_start(threads, j));
        }
        if j < i {
            lemma_start_bounds(threads, j + 1, i);
            assert(worker_end(threads, j) <= worker_start(threads, i));
        }
    }
}

} // verus!
