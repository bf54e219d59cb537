use vstd::prelude::*;

verus! {

use crate::candidate::Candidate;
use crate::confirm::ConfirmationState;

/// How many bus accounts the mine instruction can draw its reward from.
pub const BUS_COUNT: usize = 8;

/// One planned instruction of the submission bundle. Encoding each of
/// them for the chain is outside this library; the plan fixes their order
/// and contents.
#[derive(Clone, Copy, Debug, PartialEq, Eq)]
pub enum PlanInstruction {
    /// Authorize the proof account for this submission.
    Auth,
    /// Reset the program's epoch accounts, included only when the current
    /// config calls for it.
    Reset,
    /// The mine instruction carrying the winning solution and the bus it
    /// draws on.
    Mine { nonce: u64, digest: [u8; 16], bus_index: usize },
    /// The trailing priority-fee transfer to the tip beneficiary.
    Tip { lamports: u64 },
}

/// The exact instruction list a winning candidate is submitted with:
/// authorization first, the reset only when asked for, then the mine
/// instruction with the candidate's solution, and the tip last.
pub open spec fn spec_bundle_plan(
    should_reset: bool,
    winner: Candidate,
    bus_index: usize,
    tip_lamports: u64,
) -> Seq<PlanInstruction> {
    let head = if should_reset {
        seq![PlanInstruction::Auth, PlanInstruction::Reset]
    } else {
        seq![PlanInstruction::Auth]
    };
    head + seq![
        PlanInstruction::Mine { nonce: winner.nonce, digest: winner.digest, bus_index },
        PlanInstruction::Tip { lamports: tip_lamports },
    ]
}

pub fn build_bundle_plan(
    should_reset: bool,
    winner: &Candidate,
    bus_index: usize,
    tip_lamports: u64,
) -> (plan: Vec<PlanInstruction>)
    requires
        bus_index < BUS_COUNT,
    ensures
        plan@ == spec_bundle_plan(should_reset, *winner, bus_index, tip_lamports),
        plan@.len() == (if should_reset {
            4int
        } else {
            3int
        }),
        plan@[0] == PlanInstruction::Auth,
        plan@.last() == (PlanInstruction::Tip { lamports: tip_lamports }),
{
    let mut plan: Vec<PlanInstruction> = Vec::new();
    plan.push(PlanInstruction::Auth);
    if should_reset {
        plan.push(PlanInstruction::Reset);
    }
    plan.push(PlanInstruction::Mine { nonce: winner.nonce, digest: winner.digest, bus_index });
    plan.push(PlanInstruction::Tip { lamports: tip_lamports });
    proof {
        assert(plan@ =~= spec_bundle_plan(should_reset, *winner, bus_index, tip_lamports));
    }
    plan
}

/// Relies on rand's `gen_range`: a uniformly drawn index below the bound;
/// the call panics only on an empty range, which the bound excludes.
/// Nothing more than the range is promised of a random draw.
#[verifier::external_body]
fn random_index_below(n: usize) -> (i: usize)
    requires
        1 <= n,
    ensures
        i < n,
{
    rand::Rng::gen_range(&mut rand::thread_rng(), 0..n)
}

/// Pick the bus the mine instruction will draw on — a plain random pick,
/// kept as the placeholder strategy it is.
pub fn find_bus_index() -> (i: usize)
    ensures
        i < BUS_COUNT,
{
    random_index_below(BUS_COUNT)
}

/// Why a bundle submission failed: the channel to the relay could not be
/// used, or the relay answered with a rejection status. Neither is
/// retried at this layer; both go back to the caller.
#[derive(Clone, Debug, PartialEq, Eq)]
pub enum SubmitError {
    Transport { message: String },
    RelayStatus { message: String },
}

/// What follows the relay dispatch: a successful send starts confirmation
/// polling against the baseline challenge captured before the dispatch; a
/// failed send is handed straight back to the caller, and polling is
/// never entered.
pub fn submission_gate(
    baseline: &[u8; 32],
    send_result: Result<String, SubmitError>,
    max_attempts: u32,
) -> (r: Result<ConfirmationState, SubmitError>)
    ensures
        send_result matches Ok(id) ==> r matches Ok(st) && st.baseline@ == baseline@ && st.attempt
            == 0 && st.max_attempts == max_attempts,
        send_result matches Err(e) ==> r == Err::<ConfirmationState, SubmitError>(e),
{
    match send_result {
        Ok(_id) => Ok(ConfirmationState { attempt: 0, max_attempts, baseline: *baseline }),
        Err(e) => Err(e),
    }
}

} // verus!
