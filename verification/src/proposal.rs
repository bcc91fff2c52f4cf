use vstd::prelude::*;

use crate::addresses::RecordAddress;
use crate::addresses::vesting_data_address;
use crate::addresses::withdrawal_data_address;
use crate::errors::InvestmentDaoError;
use crate::investment_dao::InvestmentDao;
use crate::vesting::VestingConfig;

verus! {

/// The lifecycle state of a proposal. `Canceled` is reserved: no operation
/// reaches it.
#[derive(Clone, Copy, PartialEq, Eq, Structural, Debug)]
pub enum ProposalState {
    Voting,
    Succeded,
    Defeated,
    Executed,
    Canceled,
}

/// A ballot choice.
#[derive(Clone, Copy, PartialEq, Eq, Structural, Debug)]
pub enum VoteOption {
    Yes,
    No,
}

/// What a proposal asks for: a reinvestment with vesting, or a withdrawal
/// from the pooled funds.
#[derive(Clone, Copy, PartialEq, Eq, Structural, Debug)]
pub enum ProposalType {
    Investing,
    Withdrawal,
}

/// The edges a proposal's state may ever move along: voting tips it to
/// `Succeded` or `Defeated`, and execution moves `Succeded` to `Executed`.
/// No transition is reversible and `Executed` is terminal.
pub open spec fn allowed_transition(pre: ProposalState, post: ProposalState) -> bool {
    ||| pre == post
    ||| (pre is Voting && (post is Succeded || post is Defeated))
    ||| (pre is Succeded && post is Executed)
}

/// The allowed transitions form a one-way lattice: a proposal that has
/// left its voting phase can never return to it, a defeated proposal is
/// final, and only a succeeded proposal can ever become executed, each at
/// most once.
pub proof fn lemma_transitions_are_one_way(pre: ProposalState, post: ProposalState)
    requires
        allowed_transition(pre, post),
    ensures
        pre is Executed ==> post == pre,
        pre is Defeated ==> post == pre,
        pre is Canceled ==> post == pre,
        post is Executed ==> pre is Succeded || pre is Executed,
        post is Voting ==> pre is Voting,
{
}

/// The vote threshold snapshotted at proposal creation: the quorum
/// percentage of the value pooled at that instant, rounded down.
pub open spec fn voting_threshold(voting_quorum: int, total_deposited: int) -> int {
    voting_quorum * total_deposited / 100
}

/// A vote-gated change request of one DAO, keyed by a sequential index.
#[derive(Debug)]
pub struct Proposal {
    pub dao: u64,
    pub authority: u64,
    pub name: String,
    pub description: String,
    pub proposal_type: ProposalType,
    pub withdraw_amount: Option<u64>,
    pub vesting_config: Option<VestingConfig>,
    pub proposal_state: ProposalState,
    pub vote_threshold: u64,
    pub voting_ends_at: i64,
    pub yes_votes_count: u64,
    pub no_votes_count: u64,
    pub created_at: i64,
}

impl Proposal {
    /// Exactly one payload is present, and it matches the proposal's type.
    pub open spec fn payload_wf(self) -> bool {
        &&& self.proposal_type is Withdrawal ==> self.withdraw_amount is Some
            && self.vesting_config is None
        &&& self.proposal_type is Investing ==> self.vesting_config is Some
            && self.withdraw_amount is None
    }

    /// The yes tally after adding `voter_weight` under `vote_option`,
    /// as an unbounded integer.
    pub open spec fn new_yes(self, voter_weight: u64, vote_option: VoteOption) -> int {
        if vote_option is Yes {
            self.yes_votes_count + voter_weight
        } else {
            self.yes_votes_count as int
        }
    }

    /// The no tally after adding `voter_weight` under `vote_option`.
    pub open spec fn new_no(self, voter_weight: u64, vote_option: VoteOption) -> int {
        if vote_option is No {
            self.no_votes_count + voter_weight
        } else {
            self.no_votes_count as int
        }
    }

    /// The state after one vote: a yes tally exceeding `vote_threshold + 1`
    /// tips the proposal to `Succeded`, a no tally exceeding the same bound
    /// tips it to `Defeated`, and otherwise voting goes on.
    pub open spec fn tipped_state(self, voter_weight: u64, vote_option: VoteOption) -> ProposalState {
        if vote_option is Yes {
            if self.new_yes(voter_weight, vote_option) > self.vote_threshold + 1 {
                ProposalState::Succeded
            } else {
                ProposalState::Voting
            }
        } else {
            if self.new_no(voter_weight, vote_option) > self.vote_threshold + 1 {
                ProposalState::Defeated
            } else {
                ProposalState::Voting
            }
        }
    }

    /// This proposal with new tallies and a new state, all other fields
    /// unchanged.
    pub open spec fn with_tallies(self, yes: u64, no: u64, state: ProposalState) -> Proposal {
        Proposal {
            dao: self.dao,
            authority: self.authority,
            name: self.name,
            description: self.description,
            proposal_type: self.proposal_type,
            withdraw_amount: self.withdraw_amount,
            vesting_config: self.vesting_config,
            proposal_state: state,
            vote_threshold: self.vote_threshold,
            voting_ends_at: self.voting_ends_at,
            yes_votes_count: yes,
            no_votes_count: no,
            created_at: self.created_at,
        }
    }

    /// The vote threshold a new proposal snapshots: the quorum percentage
    /// of the value pooled right now, rounded down. It is not recomputed
    /// later as the pool changes.
    pub fn calculate_voting_treshold(investment_dao: &InvestmentDao) -> (r: u64)
        requires
            investment_dao.wf(),
        ensures
            r == voting_threshold(
                investment_dao.governance_config.voting_quorum as int,
                investment_dao.total_deposited as int,
            ),
            r <= investment_dao.total_deposited,
    {
        let quorum = investment_dao.governance_config.voting_quorum as u128;
        let total = investment_dao.total_deposited as u128;
        proof {
            assert(quorum * total <= 100 * total && quorum * total / 100 <= total)
                by (nonlinear_arith)
                requires quorum <= 100, 0 <= total <= u64::MAX;
        }
        let threshold = quorum * total / 100;
        threshold as u64
    }

    /// Records one weighted ballot on this proposal and tips the state when
    /// the matching tally exceeds `vote_threshold + 1`. Fails, changing
    /// nothing, when the proposal is no longer in its voting phase or when
    /// the tally would overflow.
    pub fn try_tip_vote(&mut self, voter_weight: u64, vote_option: &VoteOption) -> (r: Result<
        (),
        InvestmentDaoError,
    >)
        ensures
            r is Ok <==> old(self).proposal_state is Voting
                && old(self).new_yes(voter_weight, *vote_option) <= u64::MAX
                && old(self).new_no(voter_weight, *vote_option) <= u64::MAX,
            !(old(self).proposal_state is Voting) ==> r == Err::<(), InvestmentDaoError>(
                InvestmentDaoError::ProposalNotInVotingState,
            ),
            r is Err ==> *final(self) == *old(self),
            r is Err && old(self).proposal_state is Voting ==> r == Err::<(), InvestmentDaoError>(
                InvestmentDaoError::ArithmeticOverflow,
            ),
            r is Ok ==> *final(self) == old(self).with_tallies(
                old(self).new_yes(voter_weight, *vote_option) as u64,
                old(self).new_no(voter_weight, *vote_option) as u64,
                old(self).tipped_state(voter_weight, *vote_option),
            ),
            allowed_transition(old(self).proposal_state, final(self).proposal_state),
    {
        if !(self.proposal_state == ProposalState::Voting) {
            return Err(InvestmentDaoError::ProposalNotInVotingState);
        }
        match vote_option {
            VoteOption::No => {
                match self.no_votes_count.checked_add(voter_weight) {
                    None => Err(InvestmentDaoError::ArithmeticOverflow),
                    Some(tally) => {
                        self.no_votes_count = tally;
                        if tally as u128 > self.vote_threshold as u128 + 1 {
                            self.proposal_state = ProposalState::Defeated;
                        }
                        Ok(())
                    },
                }
            },
            VoteOption::Yes => {
                match self.yes_votes_count.checked_add(voter_weight) {
                    None => Err(InvestmentDaoError::ArithmeticOverflow),
                    Some(tally) => {
                        self.yes_votes_count = tally;
                        if tally as u128 > self.vote_threshold as u128 + 1 {
                            self.proposal_state = ProposalState::Succeded;
                        }
                        Ok(())
                    },
                }
            },
        }
    }

    /// Validates a caller-supplied withdrawal artifact record against the
    /// address derived for this proposal's withdrawal data.
    pub fn check_withdrwal_data_seeds(
        &self,
        withdrawal_data: &RecordAddress,
        dao_address: u64,
        proposal_index: u64,
    ) -> (r: Result<(), InvestmentDaoError>)
        ensures
            r is Ok <==> *withdrawal_data == withdrawal_data_address(dao_address, proposal_index),
            r is Err ==> r == Err::<(), InvestmentDaoError>(InvestmentDaoError::InvalidProposalData),
    {
        let expected = crate::addresses::derive_withdrawal_data_address(dao_address, proposal_index);
        if *withdrawal_data == expected {
            Ok(())
        } else {
            Err(InvestmentDaoError::InvalidProposalData)
        }
    }

    /// Validates a caller-supplied vesting schedule record against the
    /// address derived for this proposal's vesting data.
    pub fn check_vesting_data_seeds(
        &self,
        vesting_data: &RecordAddress,
        dao_address: u64,
        proposal_index: u64,
    ) -> (r: Result<(), InvestmentDaoError>)
        ensures
            r is Ok <==> *vesting_data == vesting_data_address(dao_address, proposal_index),
            r is Err ==> r == Err::<(), InvestmentDaoError>(InvestmentDaoError::InvalidProposalData),
    {
        let expected = crate::addresses::derive_vesting_data_address(dao_address, proposal_index);
        if *vesting_data == expected {
            Ok(())
        } else {
            Err(InvestmentDaoError::InvalidProposalData)
        }
    }
}

/// The one-shot ballot record of one voter on one proposal. Its existence
/// is the double-vote guard: at most one exists per (proposal, voter) pair.
#[derive(Clone, Copy, PartialEq, Eq, Structural, Debug)]
pub struct VoteRecord {
    pub authority: u64,
    pub proposal: u64,
    pub vote_at: i64,
    pub vote_option: VoteOption,
    pub voter_weight: u64,
}

/// The artifact of one executed withdrawal proposal: the approved total,
/// the currency, and the running counter of what members have claimed.
#[derive(Clone, Copy, PartialEq, Eq, Structural, Debug)]
pub struct WithdrawalData {
    pub proposal: u64,
    pub amount: u64,
    pub currency: u64,
    pub total_withdrawn: u64,
}

/// The share of an approved withdrawal owed to a claimant: the claimant's
/// cumulative deposits versus the whole pool, scaled against the approved
/// amount and rounded down.
pub open spec fn pro_rata_amount(deposit: int, pool: int, approved: int) -> int {
    deposit * approved / pool
}

impl WithdrawalData {
    /// The pro-rata amount a member may claim against this artifact,
    /// from the member's cumulative deposits and the pool total at claim
    /// time.
    pub fn calculate_withdrawal_amount(&self, total_deposit_amount: u64, total_deposited: u64)
        -> (r: u64)
        requires
            total_deposited > 0,
            total_deposit_amount <= total_deposited,
        ensures
            r == pro_rata_amount(
                total_deposit_amount as int,
                total_deposited as int,
                self.amount as int,
            ),
            r <= self.amount,
    {
        let deposit = total_deposit_amount as u128;
        let pool = total_deposited as u128;
        let approved = self.amount as u128;
        proof {
            assert(deposit as int * approved as int / pool as int <= approved as int)
                by (nonlinear_arith)
                requires 0 < pool, 0 <= deposit <= pool, 0 <= approved;
            assert(deposit * approved <= u64::MAX * u64::MAX) by (nonlinear_arith)
                requires 0 <= deposit <= u64::MAX, 0 <= approved <= u64::MAX;
        }
        let share = deposit * approved / pool;
        share as u64
    }
}

/// The one-shot claim record of one member against one withdrawal
/// artifact. Its existence is the double-claim guard.
#[derive(Clone, Copy, PartialEq, Eq, Structural, Debug)]
pub struct WithdrawalRecord {
    pub authority: u64,
    pub proposal: u64,
    pub amount_withdrawn: u64,
    pub withdraw_at: i64,
}

} // verus!
