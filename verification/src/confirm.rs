use vstd::prelude::*;

verus! {

/// Bounded confirmation polling: how many polls have been spent, the most
/// they may reach, and the challenge captured right before the dispatch.
#[derive(Clone, Copy, Debug, PartialEq, Eq)]
pub struct ConfirmationState {
    pub attempt: u32,
    pub max_attempts: u32,
    pub baseline: [u8; 32],
}

/// What one poll concludes.
#[derive(Clone, Copy, Debug, PartialEq, Eq, Structural)]
pub enum PollStatus {
    /// The observed challenge moved off the baseline: the bundle landed.
    Landed,
    /// No change yet; poll again after the interval.
    Pending,
    /// The attempt budget is spent; give up without escalating.
    Exhausted,
}

pub fn challenges_equal(a: &[u8; 32], b: &[u8; 32]) -> (r: bool)
    ensures
        r == (a@ == b@),
{
    let mut k: usize = 0;
    while k < 32
        invariant
            0 <= k <= 32,
            forall|j: int| 0 <= j < k ==> a@[j] == b@[j],
        decreases 32 - k,
    {
        if a[k] != b[k] {
            return false;
        }
        k = k + 1;
    }
    proof {
        assert(a@ =~= b@);
    }
    true
}

impl ConfirmationState {
    pub open spec fn wf(self) -> bool {
        self.attempt <= self.max_attempts
    }

    /// Fold one freshly fetched challenge into the poller: any change off
    /// the baseline means the bundle landed and polling stops early; the
    /// budget's last unchanged observation exhausts it, which is not an
    /// error; anything else polls again.
    pub fn observe(&mut self, observed: &[u8; 32]) -> (s: PollStatus)
        requires
            old(self).wf(),
            old(self).attempt < old(self).max_attempts,
        ensures
            final(self).attempt == old(self).attempt + 1,
            final(self).max_attempts == old(self).max_attempts,
            final(self).baseline == old(self).baseline,
            final(self).wf(),
            s == (if observed@ != old(self).baseline@ {
                PollStatus::Landed
            } else if old(self).attempt + 1 == old(self).max_attempts {
                PollStatus::Exhausted
            } else {
                PollStatus::Pending
            }),
    {
        self.attempt = self.attempt + 1;
        if !challenges_equal(observed, &self.baseline) {
            PollStatus::Landed
        } else if self.attempt == self.max_attempts {
            PollStatus::Exhausted
        } else {
            PollStatus::Pending
        }
    }
}

/// The whole confirmation loop, run against the challenges the successive
/// fetches observed, in order: how many polls were spent and whether the
/// bundle landed. At most `max_attempts` polls happen, and the loop stops
/// at the first observation that differs from the baseline — strictly
/// under the budget whenever one exists; the wall-clock bound of the
/// budget times the poll interval follows, as the caller sleeps once per
/// poll.
pub fn confirm_from_observations(
    baseline: &[u8; 32],
    observations: &Vec<[u8; 32]>,
    max_attempts: u32,
) -> (r: (u32, bool))
    requires
        observations@.len() >= max_attempts,
    ensures
        r.0 <= max_attempts,
        r.1 == (exists|i: int| 0 <= i < max_attempts && observations@[i]@ != baseline@),
        r.1 ==> 0 < r.0 && observations@[r.0 - 1]@ != baseline@ && (forall|i: int|
            0 <= i < r.0 - 1 ==> observations@[i]@ == baseline@),
        !r.1 ==> r.0 == max_attempts && (forall|i: int|
            0 <= i < max_attempts ==> observations@[i]@ == baseline@),
{
    let mut st = ConfirmationState { attempt: 0, max_attempts, baseline: *baseline };
    let mut n: u32 = 0;
    let mut landed = false;
    while n < max_attempts
        invariant_except_break
            st.attempt == n,
            st.max_attempts == max_attempts,
            st.baseline@ == baseline@,
            0 <= n <= max_attempts,
            observations@.len() >= max_attempts,
            !landed,
            forall|i: int| 0 <= i < n ==> observations@[i]@ == baseline@,
        ensures
            0 <= n <= max_attempts,
            landed ==> 0 < n && observations@[n - 1]@ != baseline@ && (forall|i: int|
                0 <= i < n - 1 ==> observations@[i]@ == baseline@),
            !landed ==> n == max_attempts && (forall|i: int|
                0 <= i < max_attempts ==> observations@[i]@ == baseline@),
        decreases max_attempts - n,
    {
        let s = st.observe(&observations[n as usize]);
        n = n + 1;
        if s == PollStatus::Landed {
            landed = true;
            break ;
        }
    }
    (n, landed)
}

} // verus!
