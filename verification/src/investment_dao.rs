use vstd::prelude::*;

use crate::addresses::RecordAddress;
use crate::addresses::treasury_address;
use crate::errors::InvestmentDaoError;

verus! {

/// Governance parameters, fixed when the DAO is created.
#[derive(Clone, Copy, PartialEq, Eq, Structural, Debug)]
pub struct Governance {
    /// Percentage of the pooled value, 0 to 100, that a tally must pass
    /// before a proposal tips.
    pub voting_quorum: u8,
    /// How long a proposal stays open for voting, in seconds.
    pub max_voting_time: i64,
}

/// The currency a DAO is denominated in: the native currency of the host,
/// or a fungible token identified by its mint.
#[derive(Clone, Copy, PartialEq, Eq, Structural, Debug)]
pub enum Currency {
    Sol,
    Spl,
}

/// The lifecycle state of a membership record.
#[derive(Clone, Copy, PartialEq, Eq, Structural, Debug)]
pub enum InvestorState {
    Invited,
    Accepted,
    Rejected,
}

/// How an invited candidate answers an invitation.
#[derive(Clone, Copy, PartialEq, Eq, Structural, Debug)]
pub enum InvitationAction {
    Accept,
    Reject,
}

/// The registry record of one DAO: its creator, its configuration, its
/// currency, and the running aggregate counters.
#[derive(Debug)]
pub struct InvestmentDao {
    pub authority: u64,
    pub name: String,
    pub investors_count: u32,
    pub total_deposits_count: u32,
    pub total_deposited: u64,
    pub currency: Currency,
    pub governance_config: Governance,
    pub denominated_currency: u64,
    pub proposals_count: u32,
}

impl InvestmentDao {
    /// The configuration invariant: the quorum is a percentage.
    pub open spec fn wf(self) -> bool {
        self.governance_config.voting_quorum <= 100
    }

    /// Validates a caller-supplied treasury record against the address
    /// that the DAO's treasury is derived at, guarding against a caller
    /// handing in the wrong holding record.
    pub fn check_treasury_seeds(
        dao_treasury: &RecordAddress,
        investment_dao_address: u64,
        denominated_currency: u64,
    ) -> (r: Result<(), InvestmentDaoError>)
        ensures
            r is Ok <==> *dao_treasury == treasury_address(
                investment_dao_address,
                denominated_currency,
            ),
            r is Err ==> r == Err::<(), InvestmentDaoError>(
                InvestmentDaoError::InvalidTreasuryAddress,
            ),
    {
        let expected = crate::addresses::derive_treasury_address(
            investment_dao_address,
            denominated_currency,
        );
        if *dao_treasury == expected {
            Ok(())
        } else {
            Err(InvestmentDaoError::InvalidTreasuryAddress)
        }
    }
}

/// The membership record of one candidate or member of a DAO. At most one
/// exists per (DAO, candidate) pair; `address` is the candidate's wallet.
#[derive(Clone, Copy, PartialEq, Eq, Structural, Debug)]
pub struct InvestorData {
    pub address: u64,
    pub state: InvestorState,
    pub joined_at: i64,
    pub invited_at: i64,
    pub total_deposits_count: u32,
    pub created_proposal_count: u32,
}

/// The per-member deposit and withdrawal accounting record, created lazily
/// on the member's first deposit.
#[derive(Clone, Copy, PartialEq, Eq, Structural, Debug)]
pub struct InvestorFinancialRecord {
    pub authority: u64,
    pub total_deposit_amount: u64,
    pub last_deposit_at: i64,
    pub total_withdrawn_amount: u64,
}

} // verus!
