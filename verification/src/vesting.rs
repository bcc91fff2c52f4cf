use vstd::prelude::*;

verus! {

/// The immutable unlock schedule an investing proposal carries: after a
/// cliff, `amount_per_period` unlocks for every full `period` elapsed,
/// claimable by `authority` until `total_amount` is exhausted.
#[derive(Clone, Copy, PartialEq, Eq, Structural, Debug)]
pub struct VestingConfig {
    pub cliff: u64,
    pub period: u64,
    pub total_amount: u64,
    pub authority: u64,
    pub amount_per_period: u64,
}

/// The vesting schedule created when an investing proposal executes: the
/// configuration copied verbatim, plus the mutable claim accounting.
#[derive(Clone, Copy, PartialEq, Eq, Structural, Debug)]
pub struct Vesting {
    pub config: VestingConfig,
    pub created_at: i64,
    pub proposal: u64,
    pub total_claimed: u64,
    pub last_claim_at: i64,
    pub remaining_amount: u64,
}

impl Vesting {
    /// The instant the cliff ends; claiming is possible only strictly
    /// after it.
    pub open spec fn start_unlock(self) -> int {
        self.created_at + self.config.cliff
    }

    /// How many full periods have elapsed since the cliff ended. The count
    /// runs from the end of the cliff, not from the last claim: each claim
    /// recomputes the total over the whole time since the cliff.
    pub open spec fn elapsed_periods(self, now: i64) -> int {
        (now - self.start_unlock()) / (self.config.period as int)
    }

    /// What one claim at `now` pays out under the schedule's literal
    /// formula: all periods elapsed since the cliff times the per-period
    /// amount, with no cap against what remains.
    pub open spec fn claimable_amount(self, now: i64) -> int {
        self.elapsed_periods(now) * self.config.amount_per_period
    }

    /// This schedule after a claim of `claimed` at `now`, all other
    /// fields unchanged.
    pub open spec fn after_claim(self, claimed: u64, now: i64) -> Vesting {
        Vesting {
            config: self.config,
            created_at: self.created_at,
            proposal: self.proposal,
            total_claimed: (self.total_claimed + claimed) as u64,
            last_claim_at: now,
            remaining_amount: (self.remaining_amount - claimed) as u64,
        }
    }
}

} // verus!
