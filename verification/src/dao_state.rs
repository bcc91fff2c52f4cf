use vstd::prelude::*;

use crate::addresses::RecordAddress;
use crate::addresses::treasury_address;
use crate::addresses::vesting_data_address;
use crate::addresses::withdrawal_data_address;
use crate::errors::InvestmentDaoError;
use crate::errors::errs;
use crate::investment_dao::Currency;
use crate::investment_dao::Governance;
use crate::investment_dao::InvestmentDao;
use crate::investment_dao::InvestorData;
use crate::investment_dao::InvestorFinancialRecord;
use crate::investment_dao::InvestorState;
use crate::investment_dao::InvitationAction;
use crate::proposal::Proposal;
use crate::proposal::ProposalState;
use crate::proposal::ProposalType;
use crate::proposal::VoteOption;
use crate::proposal::VoteRecord;
use crate::proposal::allowed_transition;
use crate::proposal::voting_threshold;
use crate::proposal::WithdrawalData;
use crate::proposal::WithdrawalRecord;
use crate::record_map::key_map;
use crate::record_map::keys_distinct;
use crate::record_map::lemma_key_map_contains;
use crate::record_map::lemma_key_map_index;
use crate::record_map::lemma_key_map_push;
use crate::record_map::lemma_key_map_remove;
use crate::record_map::lemma_key_map_update;
use crate::record_map::lemma_sum_by_nonneg;
use crate::record_map::lemma_sum_by_push;
use crate::record_map::lemma_sum_by_term_bound;
use crate::record_map::lemma_sum_by_update;
use crate::record_map::sum_by;
use crate::vesting::Vesting;
use crate::vesting::VestingConfig;

verus! {

/// The escrow of one executed withdrawal proposal: the artifact record
/// and the balance of the holding sub-record the approved funds sit in.
#[derive(Clone, Copy, PartialEq, Eq, Structural, Debug)]
pub struct WithdrawalEscrow {
    pub data: WithdrawalData,
    pub balance: u64,
}

/// The escrow of one executed investing proposal: the vesting schedule
/// and the balance of the holding sub-record the vested funds sit in.
#[derive(Clone, Copy, PartialEq, Eq, Structural, Debug)]
pub struct VestingEscrow {
    pub vesting: Vesting,
    pub balance: u64,
}

/// The key of a membership record: the candidate's wallet.
pub open spec fn investor_key() -> spec_fn(InvestorData) -> u64 {
    |d: InvestorData| d.address
}

/// The key of a financial record: the depositing member's wallet.
pub open spec fn fr_key() -> spec_fn(InvestorFinancialRecord) -> u64 {
    |f: InvestorFinancialRecord| f.authority
}

/// The key of a vote record: the (proposal index, voter wallet) pair.
pub open spec fn vote_key() -> spec_fn(VoteRecord) -> (u64, u64) {
    |v: VoteRecord| (v.proposal, v.authority)
}

/// The key of a withdrawal escrow: the index of its proposal.
pub open spec fn escrow_key() -> spec_fn(WithdrawalEscrow) -> u64 {
    |w: WithdrawalEscrow| w.data.proposal
}

/// The key of a withdrawal claim record: the (proposal index, claimant
/// wallet) pair.
pub open spec fn claim_key() -> spec_fn(WithdrawalRecord) -> (u64, u64) {
    |w: WithdrawalRecord| (w.proposal, w.authority)
}

/// The key of a vesting escrow: the index of its proposal.
pub open spec fn vesting_escrow_key() -> spec_fn(VestingEscrow) -> u64 {
    |v: VestingEscrow| v.vesting.proposal
}

/// A financial record's cumulative deposits, as an unbounded integer.
pub open spec fn fr_deposit() -> spec_fn(InvestorFinancialRecord) -> int {
    |f: InvestorFinancialRecord| f.total_deposit_amount as int
}

/// A financial record's cumulative withdrawals, as an unbounded integer.
pub open spec fn fr_withdrawn() -> spec_fn(InvestorFinancialRecord) -> int {
    |f: InvestorFinancialRecord| f.total_withdrawn_amount as int
}

/// A withdrawal escrow's holding balance, as an unbounded integer.
pub open spec fn escrow_balance() -> spec_fn(WithdrawalEscrow) -> int {
    |w: WithdrawalEscrow| w.balance as int
}

/// A vesting escrow's holding balance, as an unbounded integer.
pub open spec fn vesting_escrow_balance() -> spec_fn(VestingEscrow) -> int {
    |v: VestingEscrow| v.balance as int
}

/// A vesting escrow's cumulative claims, as an unbounded integer.
pub open spec fn vesting_escrow_claimed() -> spec_fn(VestingEscrow) -> int {
    |v: VestingEscrow| v.vesting.total_claimed as int
}

/// The whole state of one DAO: its registry record, the balance of its
/// treasury holding record, and every record scoped under it. Each record
/// family is a create-if-absent keyed store: a record's key is derived
/// from its own fields, and creation fails when the key is occupied.
pub struct DaoState {
    /// The identity the DAO's registry record lives at.
    pub address: u64,
    pub dao: InvestmentDao,
    /// The balance of the DAO treasury holding record, controlled only by
    /// the engine itself.
    pub treasury: u64,
    pub investors: Vec<InvestorData>,
    pub financial_records: Vec<InvestorFinancialRecord>,
    pub proposals: Vec<Proposal>,
    pub vote_records: Vec<VoteRecord>,
    pub withdrawal_escrows: Vec<WithdrawalEscrow>,
    pub withdrawal_records: Vec<WithdrawalRecord>,
    pub vesting_escrows: Vec<VestingEscrow>,
}

impl DaoState {
    /// The membership directory as a map from wallet to record.
    pub open spec fn investor_map(self) -> Map<u64, InvestorData> {
        key_map(self.investors@, investor_key())
    }

    /// The financial ledger as a map from wallet to record.
    pub open spec fn fr_map(self) -> Map<u64, InvestorFinancialRecord> {
        key_map(self.financial_records@, fr_key())
    }

    /// The cast ballots as a map from (proposal index, voter) to record.
    pub open spec fn vote_map(self) -> Map<(u64, u64), VoteRecord> {
        key_map(self.vote_records@, vote_key())
    }

    /// The withdrawal escrows as a map from proposal index to escrow.
    pub open spec fn withdrawal_map(self) -> Map<u64, WithdrawalEscrow> {
        key_map(self.withdrawal_escrows@, escrow_key())
    }

    /// The withdrawal claims as a map from (proposal index, claimant) to
    /// record.
    pub open spec fn claim_map(self) -> Map<(u64, u64), WithdrawalRecord> {
        key_map(self.withdrawal_records@, claim_key())
    }

    /// The vesting escrows as a map from proposal index to escrow.
    pub open spec fn vesting_map(self) -> Map<u64, VestingEscrow> {
        key_map(self.vesting_escrows@, vesting_escrow_key())
    }

    /// The sum of all members' cumulative deposits.
    pub open spec fn deposits_total(self) -> int {
        sum_by(self.financial_records@, fr_deposit())
    }

    /// The sum of all members' cumulative withdrawals.
    pub open spec fn withdrawn_total(self) -> int {
        sum_by(self.financial_records@, fr_withdrawn())
    }

    /// The sum of all withdrawal escrows' holding balances.
    pub open spec fn withdrawal_balances_total(self) -> int {
        sum_by(self.withdrawal_escrows@, escrow_balance())
    }

    /// The sum of all vesting escrows' holding balances.
    pub open spec fn vesting_balances_total(self) -> int {
        sum_by(self.vesting_escrows@, vesting_escrow_balance())
    }

    /// The sum of all vesting escrows' cumulative claims.
    pub open spec fn vested_claimed_total(self) -> int {
        sum_by(self.vesting_escrows@, vesting_escrow_claimed())
    }

    /// The pooled total equals the sum of the members' cumulative deposit
    /// amounts, over every sequence of operations.
    pub open spec fn deposits_balanced(self) -> bool {
        self.dao.total_deposited == self.deposits_total()
    }

    /// No value is created or destroyed: everything ever pooled is either
    /// still in the treasury, parked in an escrow's holding record, or has
    /// been paid out to members as a withdrawal or a vested claim.
    pub open spec fn funds_conserved(self) -> bool {
        self.treasury + self.withdrawal_balances_total() + self.vesting_balances_total()
            + self.withdrawn_total() + self.vested_claimed_total()
            == self.dao.total_deposited
    }

    /// Every record family keeps one record per key.
    pub open spec fn keys_wf(self) -> bool {
        &&& keys_distinct(self.investors@, investor_key())
        &&& keys_distinct(self.financial_records@, fr_key())
        &&& keys_distinct(self.vote_records@, vote_key())
        &&& keys_distinct(self.withdrawal_escrows@, escrow_key())
        &&& keys_distinct(self.withdrawal_records@, claim_key())
        &&& keys_distinct(self.vesting_escrows@, vesting_escrow_key())
    }

    /// Every proposal is well formed, belongs to this DAO, and the
    /// registry counter matches the number of proposals ever created.
    pub open spec fn proposals_wf(self) -> bool {
        &&& self.proposals@.len() == self.dao.proposals_count
        &&& forall|i: int| 0 <= i < self.proposals@.len()
            ==> (#[trigger] self.proposals@[i]).payload_wf()
                && self.proposals@[i].dao == self.address
    }

    /// Each escrow's holding balance and running claim counter add up to
    /// what was approved for it when its proposal executed.
    pub open spec fn escrows_wf(self) -> bool {
        &&& forall|i: int| 0 <= i < self.withdrawal_escrows@.len()
            ==> (#[trigger] self.withdrawal_escrows@[i]).balance
                + self.withdrawal_escrows@[i].data.total_withdrawn
                == self.withdrawal_escrows@[i].data.amount
        &&& forall|i: int| 0 <= i < self.vesting_escrows@.len()
            ==> (#[trigger] self.vesting_escrows@[i]).balance
                == self.vesting_escrows@[i].vesting.remaining_amount
                && self.vesting_escrows@[i].vesting.total_claimed
                    + self.vesting_escrows@[i].vesting.remaining_amount
                    == self.vesting_escrows@[i].vesting.config.total_amount
    }

    /// The state invariant every operation preserves.
    pub open spec fn wf(self) -> bool {
        &&& self.dao.wf()
        &&& self.keys_wf()
        &&& self.proposals_wf()
        &&& self.escrows_wf()
        &&& self.deposits_balanced()
        &&& self.funds_conserved()
    }

    /// The index of the membership record of `address`, if one exists.
    fn find_investor(&self, address: u64) -> (r: Option<usize>)
        requires
            keys_distinct(self.investors@, investor_key()),
        ensures
            match r {
                Some(i) => i < self.investors@.len()
                    && self.investors@[i as int].address == address
                    && self.investor_map().dom().contains(address)
                    && self.investor_map()[address] == self.investors@[i as int],
                None => !self.investor_map().dom().contains(address),
            },
    {
        let n = self.investors.len();
        let mut j: usize = 0;
        while j < n
            invariant
                j <= n,
                n == self.investors@.len(),
                keys_distinct(self.investors@, investor_key()),
                forall|t: int| 0 <= t < j ==> (#[trigger] self.investors@[t]).address != address,
            decreases n - j,
        {
            if self.investors[j].address == address {
                proof {
                    lemma_key_map_index(self.investors@, investor_key(), j as int);
                }
                return Some(j);
            }
            j += 1;
        }
        proof {
            lemma_key_map_contains(self.investors@, investor_key(), address);
        }
        None
    }

    /// The index of the financial record of `authority`, if one exists.
    fn find_financial_record(&self, authority: u64) -> (r: Option<usize>)
        requires
            keys_distinct(self.financial_records@, fr_key()),
        ensures
            match r {
                Some(i) => i < self.financial_records@.len()
                    && self.financial_records@[i as int].authority == authority
                    && self.fr_map().dom().contains(authority)
                    && self.fr_map()[authority] == self.financial_records@[i as int],
                None => !self.fr_map().dom().contains(authority),
            },
    {
        let n = self.financial_records.len();
        let mut j: usize = 0;
        while j < n
            invariant
                j <= n,
                n == self.financial_records@.len(),
                keys_distinct(self.financial_records@, fr_key()),
                forall|t: int| 0 <= t < j
                    ==> (#[trigger] self.financial_records@[t]).authority != authority,
            decreases n - j,
        {
            if self.financial_records[j].authority == authority {
                proof {
                    lemma_key_map_index(self.financial_records@, fr_key(), j as int);
                }
                return Some(j);
            }
            j += 1;
        }
        proof {
            lemma_key_map_contains(self.financial_records@, fr_key(), authority);
        }
        None
    }

    /// The index of the ballot of `authority` on proposal `proposal`, if
    /// one exists.
    fn find_vote_record(&self, proposal: u64, authority: u64) -> (r: Option<usize>)
        requires
            keys_distinct(self.vote_records@, vote_key()),
        ensures
            match r {
                Some(i) => i < self.vote_records@.len()
                    && self.vote_records@[i as int].proposal == proposal
                    && self.vote_records@[i as int].authority == authority
                    && self.vote_map().dom().contains((proposal, authority)),
                None => !self.vote_map().dom().contains((proposal, authority)),
            },
    {
        let n = self.vote_records.len();
        let mut j: usize = 0;
        while j < n
            invariant
                j <= n,
                n == self.vote_records@.len(),
                keys_distinct(self.vote_records@, vote_key()),
                forall|t: int| 0 <= t < j
                    ==> !((#[trigger] self.vote_records@[t]).proposal == proposal
                        && self.vote_records@[t].authority == authority),
            decreases n - j,
        {
            if self.vote_records[j].proposal == proposal
                && self.vote_records[j].authority == authority {
                proof {
                    lemma_key_map_index(self.vote_records@, vote_key(), j as int);
                }
                return Some(j);
            }
            j += 1;
        }
        proof {
            lemma_key_map_contains(self.vote_records@, vote_key(), (proposal, authority));
        }
        None
    }

    /// The index of the withdrawal escrow of proposal `proposal`, if one
    /// exists.
    fn find_withdrawal_escrow(&self, proposal: u64) -> (r: Option<usize>)
        requires
            keys_distinct(self.withdrawal_escrows@, escrow_key()),
        ensures
            match r {
                Some(i) => i < self.withdrawal_escrows@.len()
                    && self.withdrawal_escrows@[i as int].data.proposal == proposal
                    && self.withdrawal_map().dom().contains(proposal)
                    && self.withdrawal_map()[proposal] == self.withdrawal_escrows@[i as int],
                None => !self.withdrawal_map().dom().contains(proposal),
            },
    {
        let n = self.withdrawal_escrows.len();
        let mut j: usize = 0;
        while j < n
            invariant
                j <= n,
                n == self.withdrawal_escrows@.len(),
                keys_distinct(self.withdrawal_escrows@, escrow_key()),
                forall|t: int| 0 <= t < j
                    ==> (#[trigger] self.withdrawal_escrows@[t]).data.proposal != proposal,
            decreases n - j,
        {
            if self.withdrawal_escrows[j].data.proposal == proposal {
                proof {
                    lemma_key_map_index(self.withdrawal_escrows@, escrow_key(), j as int);
                }
                return Some(j);
            }
            j += 1;
        }
        proof {
            lemma_key_map_contains(self.withdrawal_escrows@, escrow_key(), proposal);
        }
        None
    }

    /// The index of the claim record of `authority` against the
    /// withdrawal of proposal `proposal`, if one exists.
    fn find_withdrawal_record(&self, proposal: u64, authority: u64) -> (r: Option<usize>)
        requires
            keys_distinct(self.withdrawal_records@, claim_key()),
        ensures
            match r {
                Some(i) => i < self.withdrawal_records@.len()
                    && self.withdrawal_records@[i as int].proposal == proposal
                    && self.withdrawal_records@[i as int].authority == authority
                    && self.claim_map().dom().contains((proposal, authority)),
                None => !self.claim_map().dom().contains((proposal, authority)),
            },
    {
        let n = self.withdrawal_records.len();
        let mut j: usize = 0;
        while j < n
            invariant
                j <= n,
                n == self.withdrawal_records@.len(),
                keys_distinct(self.withdrawal_records@, claim_key()),
                forall|t: int| 0 <= t < j
                    ==> !((#[trigger] self.withdrawal_records@[t]).proposal == proposal
                        && self.withdrawal_records@[t].authority == authority),
            decreases n - j,
        {
            if self.withdrawal_records[j].proposal == proposal
                && self.withdrawal_records[j].authority == authority {
                proof {
                    lemma_key_map_index(self.withdrawal_records@, claim_key(), j as int);
                }
                return Some(j);
            }
            j += 1;
        }
        proof {
            lemma_key_map_contains(self.withdrawal_records@, claim_key(), (proposal, authority));
        }
        None
    }

    /// The index of the vesting escrow of proposal `proposal`, if one
    /// exists.
    fn find_vesting_escrow(&self, proposal: u64) -> (r: Option<usize>)
        requires
            keys_distinct(self.vesting_escrows@, vesting_escrow_key()),
        ensures
            match r {
                Some(i) => i < self.vesting_escrows@.len()
                    && self.vesting_escrows@[i as int].vesting.proposal == proposal
                    && self.vesting_map().dom().contains(proposal)
                    && self.vesting_map()[proposal] == self.vesting_escrows@[i as int],
                None => !self.vesting_map().dom().contains(proposal),
            },
    {
        let n = self.vesting_escrows.len();
        let mut j: usize = 0;
        while j < n
            invariant
                j <= n,
                n == self.vesting_escrows@.len(),
                keys_distinct(self.vesting_escrows@, vesting_escrow_key()),
                forall|t: int| 0 <= t < j
                    ==> (#[trigger] self.vesting_escrows@[t]).vesting.proposal != proposal,
            decreases n - j,
        {
            if self.vesting_escrows[j].vesting.proposal == proposal {
                proof {
                    lemma_key_map_index(self.vesting_escrows@, vesting_escrow_key(), j as int);
                }
                return Some(j);
            }
            j += 1;
        }
        proof {
            lemma_key_map_contains(self.vesting_escrows@, vesting_escrow_key(), proposal);
        }
        None
    }

    /// The membership record a DAO's founder starts with: pre-accepted at
    /// creation time.
    pub open spec fn founder_record(dao_authority: u64, now: i64) -> InvestorData {
        InvestorData {
            address: dao_authority,
            state: InvestorState::Accepted,
            joined_at: now,
            invited_at: now,
            total_deposits_count: 0,
            created_proposal_count: 0,
        }
    }

    /// Creates a DAO: validates the governance configuration, selects the
    /// currency by the denominated-currency sentinel (zero means native),
    /// zeroes every counter and pre-accepts the founder's membership.
    pub fn create_investment_dao(
        address: u64,
        dao_authority: u64,
        name: String,
        governance_config: Governance,
        denominated_currency: u64,
        now: i64,
    ) -> (r: Result<DaoState, InvestmentDaoError>)
        ensures
            r is Ok <==> governance_config.voting_quorum <= 100,
            r is Err ==> errs(r, InvestmentDaoError::InvalidGovernanceConfig),
            r matches Ok(d) ==> {
                &&& d.wf()
                &&& d.address == address
                &&& d.dao.authority == dao_authority
                &&& d.dao.name == name
                &&& d.dao.investors_count == 0
                &&& d.dao.total_deposits_count == 0
                &&& d.dao.total_deposited == 0
                &&& d.dao.currency == (if denominated_currency == 0 { Currency::Sol } else {
                    Currency::Spl
                })
                &&& d.dao.governance_config == governance_config
                &&& d.dao.denominated_currency == denominated_currency
                &&& d.dao.proposals_count == 0
                &&& d.treasury == 0
                &&& d.investors@ == seq![Self::founder_record(dao_authority, now)]
                &&& d.investor_map() == Map::<u64, InvestorData>::empty().insert(
                    dao_authority,
                    Self::founder_record(dao_authority, now),
                )
                &&& d.financial_records@.len() == 0
                &&& d.proposals@.len() == 0
                &&& d.vote_records@.len() == 0
                &&& d.withdrawal_escrows@.len() == 0
                &&& d.withdrawal_records@.len() == 0
                &&& d.vesting_escrows@.len() == 0
            },
    {
        if governance_config.voting_quorum > 100 {
            return Err(InvestmentDaoError::InvalidGovernanceConfig);
        }
        let currency = if denominated_currency == 0 {
            Currency::Sol
        } else {
            Currency::Spl
        };
        let dao = InvestmentDao {
            authority: dao_authority,
            name,
            investors_count: 0,
            total_deposits_count: 0,
            total_deposited: 0,
            currency,
            governance_config,
            denominated_currency,
            proposals_count: 0,
        };
        let founder = InvestorData {
            address: dao_authority,
            state: InvestorState::Accepted,
            joined_at: now,
            invited_at: now,
            total_deposits_count: 0,
            created_proposal_count: 0,
        };
        let mut investors: Vec<InvestorData> = Vec::new();
        investors.push(founder);
        let state = DaoState {
            address,
            dao,
            treasury: 0,
            investors,
            financial_records: Vec::new(),
            proposals: Vec::new(),
            vote_records: Vec::new(),
            withdrawal_escrows: Vec::new(),
            withdrawal_records: Vec::new(),
            vesting_escrows: Vec::new(),
        };
        proof {
            assert(state.investors@ =~= seq![Self::founder_record(dao_authority, now)]);
            lemma_key_map_push(Seq::<InvestorData>::empty(), investor_key(), founder);
            assert(Seq::<InvestorData>::empty().push(founder) =~= state.investors@);
            assert(key_map(Seq::<InvestorData>::empty(), investor_key())
                == Map::<u64, InvestorData>::empty());
        }
        Ok(state)
    }

    /// Invites a new candidate: only the DAO authority may invite, and at
    /// most one membership record per candidate can ever exist at a time.
    pub fn invite_dao_investor(&mut self, authority: u64, invited_investor: u64, now: i64) -> (r:
        Result<(), InvestmentDaoError>)
        requires
            old(self).wf(),
        ensures
            final(self).wf(),
            r is Err ==> *final(self) == *old(self),
            r is Ok <==> !old(self).investor_map().dom().contains(invited_investor)
                && authority == old(self).dao.authority,
            old(self).investor_map().dom().contains(invited_investor) ==> errs(
                r,
                InvestmentDaoError::RecordAlreadyExists,
            ),
            !old(self).investor_map().dom().contains(invited_investor) && authority != old(
                self,
            ).dao.authority ==> errs(r, InvestmentDaoError::InvalidDaoAuthority),
            r is Ok ==> final(self).investor_map() == old(self).investor_map().insert(
                invited_investor,
                InvestorData {
                    address: invited_investor,
                    state: InvestorState::Invited,
                    joined_at: 0,
                    invited_at: now,
                    total_deposits_count: 0,
                    created_proposal_count: 0,
                },
            ),
            r is Ok ==> final(self).investors@ == old(self).investors@.push(
                InvestorData {
                    address: invited_investor,
                    state: InvestorState::Invited,
                    joined_at: 0,
                    invited_at: now,
                    total_deposits_count: 0,
                    created_proposal_count: 0,
                },
            ),
            final(self).dao == old(self).dao,
            final(self).address == old(self).address,
            final(self).treasury == old(self).treasury,
            final(self).financial_records == old(self).financial_records,
            final(self).proposals == old(self).proposals,
            final(self).vote_records == old(self).vote_records,
            final(self).withdrawal_escrows == old(self).withdrawal_escrows,
            final(self).withdrawal_records == old(self).withdrawal_records,
            final(self).vesting_escrows == old(self).vesting_escrows,
    {
        match self.find_investor(invited_investor) {
            Some(_) => Err(InvestmentDaoError::RecordAlreadyExists),
            None => {
                if authority != self.dao.authority {
                    return Err(InvestmentDaoError::InvalidDaoAuthority);
                }
                let record = InvestorData {
                    address: invited_investor,
                    state: InvestorState::Invited,
                    joined_at: 0,
                    invited_at: now,
                    total_deposits_count: 0,
                    created_proposal_count: 0,
                };
                proof {
                    lemma_key_map_push(self.investors@, investor_key(), record);
                    lemma_key_map_contains(self.investors@, investor_key(), invited_investor);
                }
                let ghost pre = self.investors@;
                self.investors.push(record);
                proof {
                    assert forall|i: int, j: int|
                        0 <= i < self.investors@.len() && 0 <= j < self.investors@.len() && i != j
                        implies investor_key()(self.investors@[i])
                            != investor_key()(self.investors@[j]) by {
                        if i < pre.len() && j < pre.len() {
                            assert(keys_distinct(pre, investor_key()));
                        }
                    }
                }
                Ok(())
            },
        }
    }

    /// Answers an invitation. Only the invited wallet itself may answer,
    /// and only while the record is in its `Invited` state: accepting
    /// marks the record and counts the new investor, rejecting removes
    /// the record for good (which leaves re-invitation possible).
    pub fn accept_or_reject_dao_invitation(
        &mut self,
        caller: u64,
        investor: u64,
        action: InvitationAction,
        now: i64,
    ) -> (r: Result<(), InvestmentDaoError>)
        requires
            old(self).wf(),
        ensures
            final(self).wf(),
            r is Err ==> *final(self) == *old(self),
            r is Ok <==> old(self).investor_map().dom().contains(investor)
                && old(self).investor_map()[investor].address == caller
                && old(self).investor_map()[investor].state is Invited
                && (action is Accept ==> old(self).dao.investors_count < u32::MAX),
            !old(self).investor_map().dom().contains(investor) ==> errs(
                r,
                InvestmentDaoError::RecordNotFound,
            ),
            old(self).investor_map().dom().contains(investor)
                && old(self).investor_map()[investor].address != caller ==> errs(
                r,
                InvestmentDaoError::InvalidInvestorWallet,
            ),
            old(self).investor_map().dom().contains(investor)
                && old(self).investor_map()[investor].address == caller
                && !(old(self).investor_map()[investor].state is Invited) ==> errs(
                r,
                InvestmentDaoError::InvalidInvitationStatus,
            ),
            old(self).investor_map().dom().contains(investor)
                && old(self).investor_map()[investor].address == caller
                && old(self).investor_map()[investor].state is Invited
                && action is Accept && old(self).dao.investors_count == u32::MAX ==> errs(
                r,
                InvestmentDaoError::ArithmeticOverflow,
            ),
            r is Ok && action is Accept ==> {
                &&& final(self).investor_map() == old(self).investor_map().insert(
                    investor,
                    InvestorData {
                        address: old(self).investor_map()[investor].address,
                        state: InvestorState::Accepted,
                        joined_at: now,
                        invited_at: old(self).investor_map()[investor].invited_at,
                        total_deposits_count: old(
                            self,
                        ).investor_map()[investor].total_deposits_count,
                        created_proposal_count: old(
                            self,
                        ).investor_map()[investor].created_proposal_count,
                    },
                )
                &&& final(self).dao.investors_count == old(self).dao.investors_count + 1
            },
            r is Ok && action is Reject ==> final(self).investor_map() == old(
                self,
            ).investor_map().remove(investor) && final(self).dao == old(self).dao,
            final(self).dao.authority == old(self).dao.authority,
            final(self).dao.name == old(self).dao.name,
            final(self).dao.total_deposits_count == old(self).dao.total_deposits_count,
            final(self).dao.total_deposited == old(self).dao.total_deposited,
            final(self).dao.currency == old(self).dao.currency,
            final(self).dao.governance_config == old(self).dao.governance_config,
            final(self).dao.denominated_currency == old(self).dao.denominated_currency,
            final(self).dao.proposals_count == old(self).dao.proposals_count,
            final(self).address == old(self).address,
            final(self).treasury == old(self).treasury,
            final(self).financial_records == old(self).financial_records,
            final(self).proposals == old(self).proposals,
            final(self).vote_records == old(self).vote_records,
            final(self).withdrawal_escrows == old(self).withdrawal_escrows,
            final(self).withdrawal_records == old(self).withdrawal_records,
            final(self).vesting_escrows == old(self).vesting_escrows,
    {
        match self.find_investor(investor) {
            None => Err(InvestmentDaoError::RecordNotFound),
            Some(i) => {
                let record = self.investors[i];
                if record.address != caller {
                    return Err(InvestmentDaoError::InvalidInvestorWallet);
                }
                if !(record.state == InvestorState::Invited) {
                    return Err(InvestmentDaoError::InvalidInvitationStatus);
                }
                match action {
                    InvitationAction::Accept => {
                        match self.dao.investors_count.checked_add(1) {
                            None => Err(InvestmentDaoError::ArithmeticOverflow),
                            Some(count) => {
                                let updated = InvestorData {
                                    address: record.address,
                                    state: InvestorState::Accepted,
                                    joined_at: now,
                                    invited_at: record.invited_at,
                                    total_deposits_count: record.total_deposits_count,
                                    created_proposal_count: record.created_proposal_count,
                                };
                                proof {
                                    lemma_key_map_update(
                                        self.investors@,
                                        investor_key(),
                                        i as int,
                                        updated,
                                    );
                                }
                                let ghost pre = self.investors@;
                                self.investors[i] = updated;
                                self.dao.investors_count = count;
                                proof {
                                    assert forall|a: int, b: int|
                                        0 <= a < self.investors@.len() && 0 <= b
                                            < self.investors@.len() && a != b
                                        implies investor_key()(self.investors@[a])
                                            != investor_key()(self.investors@[b]) by {
                                        assert(keys_distinct(pre, investor_key()));
                                        assert(investor_key()(pre[a]) != investor_key()(pre[b]));
                                    }
                                }
                                Ok(())
                            },
                        }
                    },
                    InvitationAction::Reject => {
                        proof {
                            lemma_key_map_remove(self.investors@, investor_key(), i as int);
                        }
                        let ghost pre = self.investors@;
                        self.investors.remove(i);
                        proof {
                            assert forall|a: int, b: int|
                                0 <= a < self.investors@.len() && 0 <= b < self.investors@.len()
                                    && a != b
                                implies investor_key()(self.investors@[a])
                                    != investor_key()(self.investors@[b]) by {
                                let a0 = if a < i { a } else { a + 1 };
                                let b0 = if b < i { b } else { b + 1 };
                                assert(keys_distinct(pre, investor_key()));
                                assert(investor_key()(pre[a0]) != investor_key()(pre[b0]));
                            }
                        }
                        Ok(())
                    },
                }
            },
        }
    }

    /// The financial record of `investor` after a deposit of `amount` at
    /// `now`: its cumulative total grows, and the record springs into
    /// existence on the member's first deposit.
    pub open spec fn fr_after_deposit(self, investor: u64, amount: u64, now: i64)
        -> InvestorFinancialRecord {
        if self.fr_map().dom().contains(investor) {
            InvestorFinancialRecord {
                authority: investor,
                total_deposit_amount: (self.fr_map()[investor].total_deposit_amount
                    + amount) as u64,
                last_deposit_at: now,
                total_withdrawn_amount: self.fr_map()[investor].total_withdrawn_amount,
            }
        } else {
            InvestorFinancialRecord {
                authority: investor,
                total_deposit_amount: amount,
                last_deposit_at: now,
                total_withdrawn_amount: 0,
            }
        }
    }

    /// Deposits `amount` into the pool. Only an accepted member may
    /// deposit; for a token-denominated DAO the paying account's mint must
    /// match the DAO's denominated currency. On success the pooled total,
    /// the deposit counter, the member's financial record and the treasury
    /// balance all grow together; on any failure nothing changes.
    pub fn deposit_funds(
        &mut self,
        investor: u64,
        deposit_mint: Option<u64>,
        amount: u64,
        now: i64,
    ) -> (r: Result<(), InvestmentDaoError>)
        requires
            old(self).wf(),
        ensures
            final(self).wf(),
            r is Err ==> *final(self) == *old(self),
            r is Ok <==> {
                &&& old(self).investor_map().dom().contains(investor)
                &&& old(self).dao.total_deposited + amount <= u64::MAX
                &&& old(self).dao.total_deposits_count < u32::MAX
                &&& old(self).investor_map()[investor].state is Accepted
                &&& (old(self).dao.currency is Spl ==> deposit_mint == Some(
                    old(self).dao.denominated_currency,
                ))
            },
            !old(self).investor_map().dom().contains(investor) ==> errs(
                r,
                InvestmentDaoError::RecordNotFound,
            ),
            old(self).investor_map().dom().contains(investor)
                && (old(self).dao.total_deposited + amount > u64::MAX
                || old(self).dao.total_deposits_count == u32::MAX) ==> errs(
                r,
                InvestmentDaoError::ArithmeticOverflow,
            ),
            old(self).investor_map().dom().contains(investor)
                && old(self).dao.total_deposited + amount <= u64::MAX
                && old(self).dao.total_deposits_count < u32::MAX
                && !(old(self).investor_map()[investor].state is Accepted) ==> errs(
                r,
                InvestmentDaoError::NotPartOfDao,
            ),
            old(self).investor_map().dom().contains(investor)
                && old(self).dao.total_deposited + amount <= u64::MAX
                && old(self).dao.total_deposits_count < u32::MAX
                && old(self).investor_map()[investor].state is Accepted
                && old(self).dao.currency is Spl && deposit_mint is None ==> errs(
                r,
                InvestmentDaoError::RecordNotFound,
            ),
            old(self).investor_map().dom().contains(investor)
                && old(self).dao.total_deposited + amount <= u64::MAX
                && old(self).dao.total_deposits_count < u32::MAX
                && old(self).investor_map()[investor].state is Accepted
                && old(self).dao.currency is Spl
                && (deposit_mint matches Some(m)
                    && m != old(self).dao.denominated_currency)
                ==> errs(r, InvestmentDaoError::InvalidDepositMint),
            r is Ok ==> {
                &&& final(self).dao.total_deposited == old(self).dao.total_deposited + amount
                &&& final(self).dao.total_deposits_count == old(self).dao.total_deposits_count + 1
                &&& final(self).treasury == old(self).treasury + amount
                &&& final(self).fr_map() == old(self).fr_map().insert(
                    investor,
                    old(self).fr_after_deposit(investor, amount, now),
                )
            },
            final(self).dao.authority == old(self).dao.authority,
            final(self).dao.name == old(self).dao.name,
            final(self).dao.investors_count == old(self).dao.investors_count,
            final(self).dao.currency == old(self).dao.currency,
            final(self).dao.governance_config == old(self).dao.governance_config,
            final(self).dao.denominated_currency == old(self).dao.denominated_currency,
            final(self).dao.proposals_count == old(self).dao.proposals_count,
            final(self).address == old(self).address,
            final(self).investors == old(self).investors,
            final(self).proposals == old(self).proposals,
            final(self).vote_records == old(self).vote_records,
            final(self).withdrawal_escrows == old(self).withdrawal_escrows,
            final(self).withdrawal_records == old(self).withdrawal_records,
            final(self).vesting_escrows == old(self).vesting_escrows,
    {
        let member = match self.find_investor(investor) {
            None => {
                return Err(InvestmentDaoError::RecordNotFound);
            },
            Some(ii) => self.investors[ii],
        };
        let new_total = match self.dao.total_deposited.checked_add(amount) {
            None => {
                return Err(InvestmentDaoError::ArithmeticOverflow);
            },
            Some(t) => t,
        };
        let new_count = match self.dao.total_deposits_count.checked_add(1) {
            None => {
                return Err(InvestmentDaoError::ArithmeticOverflow);
            },
            Some(c) => c,
        };
        if !(member.state == InvestorState::Accepted) {
            return Err(InvestmentDaoError::NotPartOfDao);
        }
        match self.dao.currency {
            Currency::Spl => {
                match deposit_mint {
                    None => {
                        return Err(InvestmentDaoError::RecordNotFound);
                    },
                    Some(m) => {
                        if m != self.dao.denominated_currency {
                            return Err(InvestmentDaoError::InvalidDepositMint);
                        }
                    },
                }
            },
            Currency::Sol => {},
        }
        proof {
            lemma_sum_by_nonneg(self.withdrawal_escrows@, escrow_balance());
            lemma_sum_by_nonneg(self.vesting_escrows@, vesting_escrow_balance());
            lemma_sum_by_nonneg(self.financial_records@, fr_withdrawn());
            lemma_sum_by_nonneg(self.vesting_escrows@, vesting_escrow_claimed());
            assert(self.treasury <= self.dao.total_deposited);
        }
        match self.find_financial_record(investor) {
            Some(fi) => {
                let record = self.financial_records[fi];
                proof {
                    assert(forall|j: int| 0 <= j < self.financial_records@.len()
                        ==> fr_deposit()(#[trigger] self.financial_records@[j]) >= 0);
                    lemma_sum_by_term_bound(self.financial_records@, fr_deposit(), fi as int);
                }
                let new_fr = InvestorFinancialRecord {
                    authority: investor,
                    total_deposit_amount: record.total_deposit_amount + amount,
                    last_deposit_at: now,
                    total_withdrawn_amount: record.total_withdrawn_amount,
                };
                proof {
                    lemma_key_map_update(self.financial_records@, fr_key(), fi as int, new_fr);
                    lemma_sum_by_update(self.financial_records@, fr_deposit(), fi as int, new_fr);
                    lemma_sum_by_update(self.financial_records@, fr_withdrawn(), fi as int, new_fr);
                }
                let ghost pre = self.financial_records@;
                self.financial_records[fi] = new_fr;
                proof {
                    assert forall|a: int, b: int|
                        0 <= a < self.financial_records@.len() && 0 <= b
                            < self.financial_records@.len() && a != b
                        implies fr_key()(self.financial_records@[a])
                            != fr_key()(self.financial_records@[b]) by {
                        assert(keys_distinct(pre, fr_key()));
                        assert(fr_key()(pre[a]) != fr_key()(pre[b]));
                    }
                }
            },
            None => {
                let new_fr = InvestorFinancialRecord {
                    authority: investor,
                    total_deposit_amount: amount,
                    last_deposit_at: now,
                    total_withdrawn_amount: 0,
                };
                proof {
                    lemma_key_map_push(self.financial_records@, fr_key(), new_fr);
                    lemma_sum_by_push(self.financial_records@, fr_deposit(), new_fr);
                    lemma_sum_by_push(self.financial_records@, fr_withdrawn(), new_fr);
                    lemma_key_map_contains(self.financial_records@, fr_key(), investor);
                }
                let ghost pre = self.financial_records@;
                self.financial_records.push(new_fr);
                proof {
                    assert forall|a: int, b: int|
                        0 <= a < self.financial_records@.len() && 0 <= b
                            < self.financial_records@.len() && a != b
                        implies fr_key()(self.financial_records@[a])
                            != fr_key()(self.financial_records@[b]) by {
                        if a < pre.len() && b < pre.len() {
                            assert(keys_distinct(pre, fr_key()));
                        }
                    }
                }
            },
        }
        self.dao.total_deposited = new_total;
        self.dao.total_deposits_count = new_count;
        self.treasury = self.treasury + amount;
        Ok(())
    }

    /// Opens a proposal for voting. Only an accepted member may propose.
    /// The vote threshold is snapshotted from the pool as it stands right
    /// now and is never recomputed; the voting deadline is stored but not
    /// enforced by any later operation.
    pub fn create_proposal(
        &mut self,
        authority: u64,
        proposal_type: ProposalType,
        name: String,
        description: String,
        withdraw_amount: Option<u64>,
        vesting_config: Option<VestingConfig>,
        now: i64,
    ) -> (r: Result<(), InvestmentDaoError>)
        requires
            old(self).wf(),
            name@.len() <= 20,
            description@.len() <= 50,
            proposal_type is Withdrawal ==> withdraw_amount is Some && vesting_config is None,
            proposal_type is Investing ==> vesting_config is Some && withdraw_amount is None,
        ensures
            final(self).wf(),
            r is Err ==> *final(self) == *old(self),
            r is Ok <==> {
                &&& old(self).investor_map().dom().contains(authority)
                &&& old(self).investor_map()[authority].state is Accepted
                &&& old(self).investor_map()[authority].created_proposal_count < u32::MAX
                &&& old(self).dao.proposals_count < u32::MAX
                &&& i64::MIN <= now + old(self).dao.governance_config.max_voting_time
                    <= i64::MAX
            },
            !old(self).investor_map().dom().contains(authority) ==> errs(
                r,
                InvestmentDaoError::RecordNotFound,
            ),
            old(self).investor_map().dom().contains(authority)
                && !(old(self).investor_map()[authority].state is Accepted) ==> errs(
                r,
                InvestmentDaoError::NotPartOfDao,
            ),
            old(self).investor_map().dom().contains(authority)
                && old(self).investor_map()[authority].state is Accepted && r is Err ==> errs(
                r,
                InvestmentDaoError::ArithmeticOverflow,
            ),
            r is Ok ==> final(self).proposals@ == old(self).proposals@.push(
                Proposal {
                    dao: old(self).address,
                    authority,
                    name,
                    description,
                    proposal_type,
                    withdraw_amount,
                    vesting_config,
                    proposal_state: ProposalState::Voting,
                    vote_threshold: voting_threshold(
                        old(self).dao.governance_config.voting_quorum as int,
                        old(self).dao.total_deposited as int,
                    ) as u64,
                    voting_ends_at: (now
                        + old(self).dao.governance_config.max_voting_time) as i64,
                    yes_votes_count: 0,
                    no_votes_count: 0,
                    created_at: now,
                },
            ),
            r is Ok ==> {
                &&& final(self).dao.proposals_count == old(self).dao.proposals_count + 1
                &&& final(self).investor_map() == old(self).investor_map().insert(
                    authority,
                    InvestorData {
                        created_proposal_count: (old(
                            self,
                        ).investor_map()[authority].created_proposal_count + 1) as u32,
                        ..old(self).investor_map()[authority]
                    },
                )
            },
            final(self).dao.authority == old(self).dao.authority,
            final(self).dao.name == old(self).dao.name,
            final(self).dao.investors_count == old(self).dao.investors_count,
            final(self).dao.total_deposits_count == old(self).dao.total_deposits_count,
            final(self).dao.total_deposited == old(self).dao.total_deposited,
            final(self).dao.currency == old(self).dao.currency,
            final(self).dao.governance_config == old(self).dao.governance_config,
            final(self).dao.denominated_currency == old(self).dao.denominated_currency,
            final(self).address == old(self).address,
            final(self).treasury == old(self).treasury,
            final(self).financial_records == old(self).financial_records,
            final(self).vote_records == old(self).vote_records,
            final(self).withdrawal_escrows == old(self).withdrawal_escrows,
            final(self).withdrawal_records == old(self).withdrawal_records,
            final(self).vesting_escrows == old(self).vesting_escrows,
            r is Err ==> final(self).proposals == old(self).proposals,
    {
        let ii = match self.find_investor(authority) {
            None => {
                return Err(InvestmentDaoError::RecordNotFound);
            },
            Some(ii) => ii,
        };
        let member = self.investors[ii];
        if !(member.state == InvestorState::Accepted) {
            return Err(InvestmentDaoError::NotPartOfDao);
        }
        let new_member_count = match member.created_proposal_count.checked_add(1) {
            None => {
                return Err(InvestmentDaoError::ArithmeticOverflow);
            },
            Some(c) => c,
        };
        let new_proposals_count = match self.dao.proposals_count.checked_add(1) {
            None => {
                return Err(InvestmentDaoError::ArithmeticOverflow);
            },
            Some(c) => c,
        };
        let voting_ends_at = match now.checked_add(self.dao.governance_config.max_voting_time) {
            None => {
                return Err(InvestmentDaoError::ArithmeticOverflow);
            },
            Some(t) => t,
        };
        let vote_threshold = Proposal::calculate_voting_treshold(&self.dao);
        let proposal = Proposal {
            dao: self.address,
            authority,
            name,
            description,
            proposal_type,
            withdraw_amount,
            vesting_config,
            proposal_state: ProposalState::Voting,
            vote_threshold,
            voting_ends_at,
            yes_votes_count: 0,
            no_votes_count: 0,
            created_at: now,
        };
        let updated = InvestorData {
            address: member.address,
            state: member.state,
            joined_at: member.joined_at,
            invited_at: member.invited_at,
            total_deposits_count: member.total_deposits_count,
            created_proposal_count: new_member_count,
        };
        proof {
            lemma_key_map_update(self.investors@, investor_key(), ii as int, updated);
        }
        let ghost pre = self.investors@;
        self.investors[ii] = updated;
        self.proposals.push(proposal);
        self.dao.proposals_count = new_proposals_count;
        proof {
            assert forall|a: int, b: int|
                0 <= a < self.investors@.len() && 0 <= b < self.investors@.len() && a != b
                implies investor_key()(self.investors@[a])
                    != investor_key()(self.investors@[b]) by {
                assert(keys_distinct(pre, investor_key()));
                assert(investor_key()(pre[a]) != investor_key()(pre[b]));
            }
        }
        Ok(())
    }

    /// Casts one weighted ballot: the voter must hold a membership record
    /// and a financial record, the weight is the voter's cumulative
    /// deposits as they stand right now, and the one vote-record per
    /// (proposal, voter) pair rule is the sole double-vote guard. Tips the
    /// proposal's state when the matching tally passes the threshold.
    pub fn cast_vote(
        &mut self,
        investor: u64,
        proposal_index: u32,
        vote_option: VoteOption,
        now: i64,
    ) -> (r: Result<(), InvestmentDaoError>)
        requires
            old(self).wf(),
        ensures
            final(self).wf(),
            r is Err ==> *final(self) == *old(self),
            r is Ok <==> {
                &&& old(self).investor_map().dom().contains(investor)
                &&& old(self).fr_map().dom().contains(investor)
                &&& proposal_index < old(self).dao.proposals_count
                &&& !old(self).vote_map().dom().contains((proposal_index as u64, investor))
                &&& old(self).proposals@[proposal_index as int].proposal_state is Voting
                &&& old(self).proposals@[proposal_index as int].new_yes(
                    old(self).fr_map()[investor].total_deposit_amount,
                    vote_option,
                ) <= u64::MAX
                &&& old(self).proposals@[proposal_index as int].new_no(
                    old(self).fr_map()[investor].total_deposit_amount,
                    vote_option,
                ) <= u64::MAX
            },
            !(old(self).investor_map().dom().contains(investor)
                && old(self).fr_map().dom().contains(investor)
                && proposal_index < old(self).dao.proposals_count) ==> errs(
                r,
                InvestmentDaoError::RecordNotFound,
            ),
            old(self).investor_map().dom().contains(investor)
                && old(self).fr_map().dom().contains(investor)
                && proposal_index < old(self).dao.proposals_count
                && old(self).vote_map().dom().contains((proposal_index as u64, investor))
                ==> errs(r, InvestmentDaoError::RecordAlreadyExists),
            old(self).investor_map().dom().contains(investor)
                && old(self).fr_map().dom().contains(investor)
                && proposal_index < old(self).dao.proposals_count
                && !old(self).vote_map().dom().contains((proposal_index as u64, investor))
                && !(old(self).proposals@[proposal_index as int].proposal_state is Voting)
                ==> errs(r, InvestmentDaoError::ProposalNotInVotingState),
            old(self).investor_map().dom().contains(investor)
                && old(self).fr_map().dom().contains(investor)
                && proposal_index < old(self).dao.proposals_count
                && !old(self).vote_map().dom().contains((proposal_index as u64, investor))
                && old(self).proposals@[proposal_index as int].proposal_state is Voting
                && r is Err ==> errs(r, InvestmentDaoError::ArithmeticOverflow),
            r is Ok ==> {
                let weight = old(self).fr_map()[investor].total_deposit_amount;
                let pre = old(self).proposals@[proposal_index as int];
                &&& final(self).proposals@ == old(self).proposals@.update(
                    proposal_index as int,
                    pre.with_tallies(
                        pre.new_yes(weight, vote_option) as u64,
                        pre.new_no(weight, vote_option) as u64,
                        pre.tipped_state(weight, vote_option),
                    ),
                )
                &&& final(self).vote_records@ == old(self).vote_records@.push(
                    VoteRecord {
                        authority: investor,
                        proposal: proposal_index as u64,
                        vote_at: now,
                        vote_option,
                        voter_weight: weight,
                    },
                )
                &&& final(self).vote_map() == old(self).vote_map().insert(
                    (proposal_index as u64, investor),
                    VoteRecord {
                        authority: investor,
                        proposal: proposal_index as u64,
                        vote_at: now,
                        vote_option,
                        voter_weight: weight,
                    },
                )
            },
            proposal_index < old(self).dao.proposals_count ==> allowed_transition(
                old(self).proposals@[proposal_index as int].proposal_state,
                final(self).proposals@[proposal_index as int].proposal_state,
            ),
            final(self).dao == old(self).dao,
            final(self).address == old(self).address,
            final(self).treasury == old(self).treasury,
            final(self).investors == old(self).investors,
            final(self).financial_records == old(self).financial_records,
            final(self).withdrawal_escrows == old(self).withdrawal_escrows,
            final(self).withdrawal_records == old(self).withdrawal_records,
            final(self).vesting_escrows == old(self).vesting_escrows,
    {
        if self.find_investor(investor).is_none() {
            return Err(InvestmentDaoError::RecordNotFound);
        }
        let weight = match self.find_financial_record(investor) {
            None => {
                return Err(InvestmentDaoError::RecordNotFound);
            },
            Some(fi) => self.financial_records[fi].total_deposit_amount,
        };
        if !((proposal_index as usize) < self.proposals.len()) {
            return Err(InvestmentDaoError::RecordNotFound);
        }
        if self.find_vote_record(proposal_index as u64, investor).is_some() {
            return Err(InvestmentDaoError::RecordAlreadyExists);
        }
        let pi = proposal_index as usize;
        if !(self.proposals[pi].proposal_state == ProposalState::Voting) {
            return Err(InvestmentDaoError::ProposalNotInVotingState);
        }
        let tally_fits = match vote_option {
            VoteOption::Yes => self.proposals[pi].yes_votes_count.checked_add(weight).is_some(),
            VoteOption::No => self.proposals[pi].no_votes_count.checked_add(weight).is_some(),
        };
        if !tally_fits {
            return Err(InvestmentDaoError::ArithmeticOverflow);
        }
        let outcome = {
            let p = &mut self.proposals[pi];
            p.try_tip_vote(weight, &vote_option)
        };
        match outcome {
            Err(e) => {
                proof {
                    assert(false);
                }
                Err(e)
            },
            Ok(()) => {
                let record = VoteRecord {
                    authority: investor,
                    proposal: proposal_index as u64,
                    vote_at: now,
                    vote_option,
                    voter_weight: weight,
                };
                proof {
                    lemma_key_map_push(self.vote_records@, vote_key(), record);
                    lemma_key_map_contains(
                        self.vote_records@,
                        vote_key(),
                        (proposal_index as u64, investor),
                    );
                }
                let ghost pre_votes = self.vote_records@;
                self.vote_records.push(record);
                proof {
                    assert forall|a: int, b: int|
                        0 <= a < self.vote_records@.len() && 0 <= b < self.vote_records@.len()
                            && a != b
                        implies vote_key()(self.vote_records@[a])
                            != vote_key()(self.vote_records@[b]) by {
                        if a < pre_votes.len() && b < pre_votes.len() {
                            assert(keys_distinct(pre_votes, vote_key()));
                        }
                    }
                }
                Ok(())
            },
        }
    }

    /// Executes a succeeded proposal: anyone may call it. The caller must
    /// hand in the DAO treasury's own derived record and the derived
    /// sub-record for the proposal's artifact. Exactly once per proposal
    /// the approved funds move from the treasury into a fresh escrow: a
    /// second attempt fails with `InvalidProposalState` because the state
    /// is no longer `Succeded`, so funds can never be disbursed twice.
    pub fn execute_proposal(
        &mut self,
        proposal_index: u32,
        dao_treasury: &RecordAddress,
        proposal_sub_record: &RecordAddress,
        now: i64,
    ) -> (r: Result<(), InvestmentDaoError>)
        requires
            old(self).wf(),
        ensures
            final(self).wf(),
            r is Err ==> *final(self) == *old(self),
            r is Ok <==> {
                let piu = proposal_index as u64;
                &&& proposal_index < old(self).dao.proposals_count
                &&& old(self).proposals@[proposal_index as int].proposal_state is Succeded
                &&& *dao_treasury == treasury_address(
                    old(self).address,
                    old(self).dao.denominated_currency,
                )
                &&& (old(self).proposals@[proposal_index as int].proposal_type is Withdrawal
                    ==> {
                    &&& *proposal_sub_record == withdrawal_data_address(old(self).address, piu)
                    &&& !old(self).withdrawal_map().dom().contains(piu)
                    &&& old(self).proposals@[proposal_index as int].withdraw_amount->Some_0
                        <= old(self).treasury
                })
                &&& (old(self).proposals@[proposal_index as int].proposal_type is Investing
                    ==> {
                    &&& *proposal_sub_record == vesting_data_address(old(self).address, piu)
                    &&& !old(self).vesting_map().dom().contains(piu)
                    &&& old(self).proposals@[proposal_index as int].vesting_config
                        ->Some_0.total_amount <= old(self).treasury
                })
            },
            !(proposal_index < old(self).dao.proposals_count) ==> errs(
                r,
                InvestmentDaoError::RecordNotFound,
            ),
            proposal_index < old(self).dao.proposals_count
                && !(old(self).proposals@[proposal_index as int].proposal_state is Succeded)
                ==> errs(r, InvestmentDaoError::InvalidProposalState),
            proposal_index < old(self).dao.proposals_count
                && old(self).proposals@[proposal_index as int].proposal_state is Succeded
                && *dao_treasury != treasury_address(
                    old(self).address,
                    old(self).dao.denominated_currency,
                ) ==> errs(r, InvestmentDaoError::InvalidTreasuryAddress),
            proposal_index < old(self).dao.proposals_count
                && old(self).proposals@[proposal_index as int].proposal_state is Succeded
                && *dao_treasury == treasury_address(
                    old(self).address,
                    old(self).dao.denominated_currency,
                )
                && *proposal_sub_record != (if old(
                    self,
                ).proposals@[proposal_index as int].proposal_type is Withdrawal {
                    withdrawal_data_address(old(self).address, proposal_index as u64)
                } else {
                    vesting_data_address(old(self).address, proposal_index as u64)
                }) ==> errs(r, InvestmentDaoError::InvalidProposalData),
            proposal_index < old(self).dao.proposals_count
                && old(self).proposals@[proposal_index as int].proposal_state is Succeded
                && *dao_treasury == treasury_address(
                    old(self).address,
                    old(self).dao.denominated_currency,
                )
                && *proposal_sub_record == (if old(
                    self,
                ).proposals@[proposal_index as int].proposal_type is Withdrawal {
                    withdrawal_data_address(old(self).address, proposal_index as u64)
                } else {
                    vesting_data_address(old(self).address, proposal_index as u64)
                })
                && (if old(self).proposals@[proposal_index as int].proposal_type is Withdrawal {
                    old(self).withdrawal_map().dom().contains(proposal_index as u64)
                } else {
                    old(self).vesting_map().dom().contains(proposal_index as u64)
                }) ==> errs(r, InvestmentDaoError::RecordAlreadyExists),
            proposal_index < old(self).dao.proposals_count
                && old(self).proposals@[proposal_index as int].proposal_state is Succeded
                && *dao_treasury == treasury_address(
                    old(self).address,
                    old(self).dao.denominated_currency,
                ) && r is Err
                && !errs(r, InvestmentDaoError::InvalidProposalData)
                && !errs(r, InvestmentDaoError::RecordAlreadyExists) ==> errs(
                r,
                InvestmentDaoError::ArithmeticOverflow,
            ),
            r is Ok ==> {
                let piu = proposal_index as u64;
                let p = old(self).proposals@[proposal_index as int];
                &&& final(self).proposals@ == old(self).proposals@.update(
                    proposal_index as int,
                    p.with_tallies(p.yes_votes_count, p.no_votes_count, ProposalState::Executed),
                )
                &&& (p.proposal_type is Withdrawal ==> {
                    &&& final(self).treasury == old(self).treasury - p.withdraw_amount->Some_0
                    &&& final(self).withdrawal_escrows@ == old(self).withdrawal_escrows@.push(
                        WithdrawalEscrow {
                            data: WithdrawalData {
                                proposal: piu,
                                amount: p.withdraw_amount->Some_0,
                                currency: old(self).dao.denominated_currency,
                                total_withdrawn: 0,
                            },
                            balance: p.withdraw_amount->Some_0,
                        },
                    )
                    &&& final(self).vesting_escrows == old(self).vesting_escrows
                })
                &&& (p.proposal_type is Investing ==> {
                    &&& final(self).treasury == old(self).treasury
                        - p.vesting_config->Some_0.total_amount
                    &&& final(self).vesting_escrows@ == old(self).vesting_escrows@.push(
                        VestingEscrow {
                            vesting: Vesting {
                                config: p.vesting_config->Some_0,
                                created_at: now,
                                proposal: piu,
                                total_claimed: 0,
                                last_claim_at: 0,
                                remaining_amount: p.vesting_config->Some_0.total_amount,
                            },
                            balance: p.vesting_config->Some_0.total_amount,
                        },
                    )
                    &&& final(self).withdrawal_escrows == old(self).withdrawal_escrows
                })
            },
            proposal_index < old(self).dao.proposals_count ==> allowed_transition(
                old(self).proposals@[proposal_index as int].proposal_state,
                final(self).proposals@[proposal_index as int].proposal_state,
            ),
            final(self).dao == old(self).dao,
            final(self).address == old(self).address,
            final(self).investors == old(self).investors,
            final(self).financial_records == old(self).financial_records,
            final(self).vote_records == old(self).vote_records,
            final(self).withdrawal_records == old(self).withdrawal_records,
    {
        let pi = proposal_index as usize;
        if !(pi < self.proposals.len()) {
            return Err(InvestmentDaoError::RecordNotFound);
        }
        if !(self.proposals[pi].proposal_state == ProposalState::Succeded) {
            return Err(InvestmentDaoError::InvalidProposalState);
        }
        let expected_treasury = crate::addresses::derive_treasury_address(
            self.address,
            self.dao.denominated_currency,
        );
        if !(*dao_treasury == expected_treasury) {
            return Err(InvestmentDaoError::InvalidTreasuryAddress);
        }
        match self.proposals[pi].proposal_type {
            ProposalType::Withdrawal => {
                let expected_sub = crate::addresses::derive_withdrawal_data_address(
                    self.address,
                    proposal_index as u64,
                );
                if !(*proposal_sub_record == expected_sub) {
                    return Err(InvestmentDaoError::InvalidProposalData);
                }
                if self.find_withdrawal_escrow(proposal_index as u64).is_some() {
                    return Err(InvestmentDaoError::RecordAlreadyExists);
                }
                let amount = match self.proposals[pi].withdraw_amount {
                    Some(a) => a,
                    None => {
                        proof {
                            assert(false);
                        }
                        return Err(InvestmentDaoError::InvalidProposalData);
                    },
                };
                if amount > self.treasury {
                    return Err(InvestmentDaoError::ArithmeticOverflow);
                }
                {
                    let p = &mut self.proposals[pi];
                    p.proposal_state = ProposalState::Executed;
                }
                let escrow = WithdrawalEscrow {
                    data: WithdrawalData {
                        proposal: proposal_index as u64,
                        amount,
                        currency: self.dao.denominated_currency,
                        total_withdrawn: 0,
                    },
                    balance: amount,
                };
                proof {
                    lemma_key_map_push(self.withdrawal_escrows@, escrow_key(), escrow);
                    lemma_key_map_contains(
                        self.withdrawal_escrows@,
                        escrow_key(),
                        proposal_index as u64,
                    );
                    lemma_sum_by_push(self.withdrawal_escrows@, escrow_balance(), escrow);
                }
                let ghost pre = self.withdrawal_escrows@;
                self.withdrawal_escrows.push(escrow);
                self.treasury = self.treasury - amount;
                proof {
                    assert forall|a: int, b: int|
                        0 <= a < self.withdrawal_escrows@.len() && 0 <= b
                            < self.withdrawal_escrows@.len() && a != b
                        implies escrow_key()(self.withdrawal_escrows@[a])
                            != escrow_key()(self.withdrawal_escrows@[b]) by {
                        if a < pre.len() && b < pre.len() {
                            assert(keys_distinct(pre, escrow_key()));
                        }
                    }
                }
                Ok(())
            },
            ProposalType::Investing => {
                let expected_sub = crate::addresses::derive_vesting_data_address(
                    self.address,
                    proposal_index as u64,
                );
                if !(*proposal_sub_record == expected_sub) {
                    return Err(InvestmentDaoError::InvalidProposalData);
                }
                if self.find_vesting_escrow(proposal_index as u64).is_some() {
                    return Err(InvestmentDaoError::RecordAlreadyExists);
                }
                let config = match self.proposals[pi].vesting_config {
                    Some(c) => c,
                    None => {
                        proof {
                            assert(false);
                        }
                        return Err(InvestmentDaoError::InvalidProposalData);
                    },
                };
                if config.total_amount > self.treasury {
                    return Err(InvestmentDaoError::ArithmeticOverflow);
                }
                {
                    let p = &mut self.proposals[pi];
                    p.proposal_state = ProposalState::Executed;
                }
                let escrow = VestingEscrow {
                    vesting: Vesting {
                        config,
                        created_at: now,
                        proposal: proposal_index as u64,
                        total_claimed: 0,
                        last_claim_at: 0,
                        remaining_amount: config.total_amount,
                    },
                    balance: config.total_amount,
                };
                proof {
                    lemma_key_map_push(self.vesting_escrows@, vesting_escrow_key(), escrow);
                    lemma_key_map_contains(
                        self.vesting_escrows@,
                        vesting_escrow_key(),
                        proposal_index as u64,
                    );
                    lemma_sum_by_push(self.vesting_escrows@, vesting_escrow_balance(), escrow);
                    lemma_sum_by_push(self.vesting_escrows@, vesting_escrow_claimed(), escrow);
                }
                let ghost pre = self.vesting_escrows@;
                self.vesting_escrows.push(escrow);
                self.treasury = self.treasury - config.total_amount;
                proof {
                    assert forall|a: int, b: int|
                        0 <= a < self.vesting_escrows@.len() && 0 <= b
                            < self.vesting_escrows@.len() && a != b
                        implies vesting_escrow_key()(self.vesting_escrows@[a])
                            != vesting_escrow_key()(self.vesting_escrows@[b]) by {
                        if a < pre.len() && b < pre.len() {
                            assert(keys_distinct(pre, vesting_escrow_key()));
                        }
                    }
                }
                Ok(())
            },
        }
    }

    /// Claims a member's pro-rata share of an executed withdrawal: the
    /// member's cumulative deposits versus the whole pool as it stands at
    /// claim time, scaled against the approved amount. The one claim
    /// record per (withdrawal, claimant) pair rule is the sole
    /// double-claim guard.
    pub fn withdraw_funds(&mut self, authority: u64, proposal_index: u32, now: i64) -> (r: Result<
        (),
        InvestmentDaoError,
    >)
        requires
            old(self).wf(),
        ensures
            final(self).wf(),
            r is Err ==> *final(self) == *old(self),
            r is Ok <==> {
                let piu = proposal_index as u64;
                &&& old(self).investor_map().dom().contains(authority)
                &&& old(self).fr_map().dom().contains(authority)
                &&& old(self).withdrawal_map().dom().contains(piu)
                &&& !old(self).claim_map().dom().contains((piu, authority))
                &&& old(self).dao.total_deposited > 0
                &&& crate::proposal::pro_rata_amount(
                    old(self).fr_map()[authority].total_deposit_amount as int,
                    old(self).dao.total_deposited as int,
                    old(self).withdrawal_map()[piu].data.amount as int,
                ) <= old(self).withdrawal_map()[piu].balance
            },
            !(old(self).investor_map().dom().contains(authority)
                && old(self).fr_map().dom().contains(authority)
                && old(self).withdrawal_map().dom().contains(proposal_index as u64)) ==> errs(
                r,
                InvestmentDaoError::RecordNotFound,
            ),
            old(self).investor_map().dom().contains(authority)
                && old(self).fr_map().dom().contains(authority)
                && old(self).withdrawal_map().dom().contains(proposal_index as u64)
                && old(self).claim_map().dom().contains((proposal_index as u64, authority))
                ==> errs(r, InvestmentDaoError::RecordAlreadyExists),
            old(self).investor_map().dom().contains(authority)
                && old(self).fr_map().dom().contains(authority)
                && old(self).withdrawal_map().dom().contains(proposal_index as u64)
                && !old(self).claim_map().dom().contains((proposal_index as u64, authority))
                && r is Err ==> errs(r, InvestmentDaoError::ArithmeticOverflow),
            r is Ok ==> {
                let piu = proposal_index as u64;
                let w = crate::proposal::pro_rata_amount(
                    old(self).fr_map()[authority].total_deposit_amount as int,
                    old(self).dao.total_deposited as int,
                    old(self).withdrawal_map()[piu].data.amount as int,
                ) as u64;
                &&& final(self).fr_map() == old(self).fr_map().insert(
                    authority,
                    InvestorFinancialRecord {
                        total_withdrawn_amount: (old(
                            self,
                        ).fr_map()[authority].total_withdrawn_amount + w) as u64,
                        ..old(self).fr_map()[authority]
                    },
                )
                &&& final(self).withdrawal_map() == old(self).withdrawal_map().insert(
                    piu,
                    WithdrawalEscrow {
                        data: WithdrawalData {
                            total_withdrawn: (old(
                                self,
                            ).withdrawal_map()[piu].data.total_withdrawn + w) as u64,
                            ..old(self).withdrawal_map()[piu].data
                        },
                        balance: (old(self).withdrawal_map()[piu].balance - w) as u64,
                    },
                )
                &&& final(self).claim_map() == old(self).claim_map().insert(
                    (piu, authority),
                    WithdrawalRecord {
                        authority,
                        proposal: piu,
                        amount_withdrawn: w,
                        withdraw_at: now,
                    },
                )
                &&& final(self).withdrawal_records@ == old(self).withdrawal_records@.push(
                    WithdrawalRecord {
                        authority,
                        proposal: piu,
                        amount_withdrawn: w,
                        withdraw_at: now,
                    },
                )
            },
            final(self).dao == old(self).dao,
            final(self).address == old(self).address,
            final(self).treasury == old(self).treasury,
            final(self).investors == old(self).investors,
            final(self).proposals == old(self).proposals,
            final(self).vote_records == old(self).vote_records,
            final(self).vesting_escrows == old(self).vesting_escrows,
    {
        if self.find_investor(authority).is_none() {
            return Err(InvestmentDaoError::RecordNotFound);
        }
        let fi = match self.find_financial_record(authority) {
            None => {
                return Err(InvestmentDaoError::RecordNotFound);
            },
            Some(fi) => fi,
        };
        let wi = match self.find_withdrawal_escrow(proposal_index as u64) {
            None => {
                return Err(InvestmentDaoError::RecordNotFound);
            },
            Some(wi) => wi,
        };
        if self.find_withdrawal_record(proposal_index as u64, authority).is_some() {
            return Err(InvestmentDaoError::RecordAlreadyExists);
        }
        if self.dao.total_deposited == 0 {
            return Err(InvestmentDaoError::ArithmeticOverflow);
        }
        let record = self.financial_records[fi];
        let escrow = self.withdrawal_escrows[wi];
        proof {
            assert(forall|j: int| 0 <= j < self.financial_records@.len()
                ==> fr_deposit()(#[trigger] self.financial_records@[j]) >= 0);
            lemma_sum_by_term_bound(self.financial_records@, fr_deposit(), fi as int);
        }
        let withdrawable = escrow.data.calculate_withdrawal_amount(
            record.total_deposit_amount,
            self.dao.total_deposited,
        );
        if withdrawable > escrow.balance {
            return Err(InvestmentDaoError::ArithmeticOverflow);
        }
        proof {
            assert(forall|j: int| 0 <= j < self.financial_records@.len()
                ==> fr_withdrawn()(#[trigger] self.financial_records@[j]) >= 0);
            assert(forall|j: int| 0 <= j < self.withdrawal_escrows@.len()
                ==> escrow_balance()(#[trigger] self.withdrawal_escrows@[j]) >= 0);
            lemma_sum_by_term_bound(self.financial_records@, fr_withdrawn(), fi as int);
            lemma_sum_by_term_bound(self.withdrawal_escrows@, escrow_balance(), wi as int);
            lemma_sum_by_nonneg(self.vesting_escrows@, vesting_escrow_balance());
            lemma_sum_by_nonneg(self.vesting_escrows@, vesting_escrow_claimed());
            lemma_sum_by_nonneg(self.financial_records@, fr_deposit());
            assert(record.total_withdrawn_amount + withdrawable <= self.dao.total_deposited);
        }
        let new_fr = InvestorFinancialRecord {
            authority: record.authority,
            total_deposit_amount: record.total_deposit_amount,
            last_deposit_at: record.last_deposit_at,
            total_withdrawn_amount: record.total_withdrawn_amount + withdrawable,
        };
        let new_escrow = WithdrawalEscrow {
            data: WithdrawalData {
                proposal: escrow.data.proposal,
                amount: escrow.data.amount,
                currency: escrow.data.currency,
                total_withdrawn: escrow.data.total_withdrawn + withdrawable,
            },
            balance: escrow.balance - withdrawable,
        };
        let claim = WithdrawalRecord {
            authority,
            proposal: proposal_index as u64,
            amount_withdrawn: withdrawable,
            withdraw_at: now,
        };
        proof {
            lemma_key_map_update(self.financial_records@, fr_key(), fi as int, new_fr);
            lemma_sum_by_update(self.financial_records@, fr_deposit(), fi as int, new_fr);
            lemma_sum_by_update(self.financial_records@, fr_withdrawn(), fi as int, new_fr);
            lemma_key_map_update(self.withdrawal_escrows@, escrow_key(), wi as int, new_escrow);
            lemma_sum_by_update(self.withdrawal_escrows@, escrow_balance(), wi as int, new_escrow);
            lemma_key_map_push(self.withdrawal_records@, claim_key(), claim);
            lemma_key_map_contains(
                self.withdrawal_records@,
                claim_key(),
                (proposal_index as u64, authority),
            );
        }
        let ghost pre_frs = self.financial_records@;
        let ghost pre_escrows = self.withdrawal_escrows@;
        let ghost pre_claims = self.withdrawal_records@;
        self.financial_records[fi] = new_fr;
        self.withdrawal_escrows[wi] = new_escrow;
        self.withdrawal_records.push(claim);
        proof {
            assert forall|a: int, b: int|
                0 <= a < self.financial_records@.len() && 0 <= b < self.financial_records@.len()
                    && a != b
                implies fr_key()(self.financial_records@[a])
                    != fr_key()(self.financial_records@[b]) by {
                assert(keys_distinct(pre_frs, fr_key()));
                assert(fr_key()(pre_frs[a]) != fr_key()(pre_frs[b]));
            }
            assert forall|a: int, b: int|
                0 <= a < self.withdrawal_escrows@.len() && 0 <= b
                    < self.withdrawal_escrows@.len() && a != b
                implies escrow_key()(self.withdrawal_escrows@[a])
                    != escrow_key()(self.withdrawal_escrows@[b]) by {
                assert(keys_distinct(pre_escrows, escrow_key()));
                assert(escrow_key()(pre_escrows[a]) != escrow_key()(pre_escrows[b]));
            }
            assert forall|a: int, b: int|
                0 <= a < self.withdrawal_records@.len() && 0 <= b
                    < self.withdrawal_records@.len() && a != b
                implies claim_key()(self.withdrawal_records@[a])
                    != claim_key()(self.withdrawal_records@[b]) by {
                if a < pre_claims.len() && b < pre_claims.len() {
                    assert(keys_distinct(pre_claims, claim_key()));
                }
            }
        }
        Ok(())
    }

    /// Claims vested tokens: only the schedule's beneficiary may claim,
    /// only strictly after the cliff, and each claim pays the schedule's
    /// literal formula: all full periods elapsed since the cliff ended
    /// times the per-period amount, with no use of the last claim time
    /// and no cap against what remains. A claim whose formula amount
    /// exceeds the remaining balance aborts whole, as the underflowing
    /// update would.
    pub fn claim_tokens(&mut self, payer: u64, proposal_index: u32, now: i64) -> (r: Result<
        (),
        InvestmentDaoError,
    >)
        requires
            old(self).wf(),
        ensures
            final(self).wf(),
            r is Err ==> *final(self) == *old(self),
            r is Ok <==> {
                let piu = proposal_index as u64;
                &&& old(self).vesting_map().dom().contains(piu)
                &&& old(self).vesting_map()[piu].vesting.config.authority == payer
                &&& old(self).vesting_map()[piu].vesting.remaining_amount > 0
                &&& now > old(self).vesting_map()[piu].vesting.start_unlock()
                &&& old(self).vesting_map()[piu].vesting.config.period > 0
                &&& old(self).vesting_map()[piu].vesting.elapsed_periods(now) > 0
                &&& old(self).vesting_map()[piu].vesting.claimable_amount(now)
                    <= old(self).vesting_map()[piu].vesting.remaining_amount
            },
            !old(self).vesting_map().dom().contains(proposal_index as u64) ==> errs(
                r,
                InvestmentDaoError::RecordNotFound,
            ),
            old(self).vesting_map().dom().contains(proposal_index as u64)
                && old(self).vesting_map()[proposal_index as u64].vesting.config.authority
                    != payer ==> errs(r, InvestmentDaoError::InvalidVestingAuthority),
            old(self).vesting_map().dom().contains(proposal_index as u64)
                && old(self).vesting_map()[proposal_index as u64].vesting.config.authority
                    == payer
                && old(self).vesting_map()[proposal_index as u64].vesting.remaining_amount == 0
                ==> errs(r, InvestmentDaoError::AllTokensClaimed),
            old(self).vesting_map().dom().contains(proposal_index as u64)
                && old(self).vesting_map()[proposal_index as u64].vesting.config.authority
                    == payer
                && old(self).vesting_map()[proposal_index as u64].vesting.remaining_amount > 0
                && now <= old(self).vesting_map()[proposal_index as u64].vesting.start_unlock()
                ==> errs(r, InvestmentDaoError::VestingNotStarted),
            old(self).vesting_map().dom().contains(proposal_index as u64)
                && old(self).vesting_map()[proposal_index as u64].vesting.config.authority
                    == payer
                && old(self).vesting_map()[proposal_index as u64].vesting.remaining_amount > 0
                && now > old(self).vesting_map()[proposal_index as u64].vesting.start_unlock()
                && old(self).vesting_map()[proposal_index as u64].vesting.config.period > 0
                && old(self).vesting_map()[proposal_index as u64].vesting.elapsed_periods(now)
                    == 0 ==> errs(r, InvestmentDaoError::NoClaimableTokens),
            old(self).vesting_map().dom().contains(proposal_index as u64)
                && old(self).vesting_map()[proposal_index as u64].vesting.config.authority
                    == payer
                && old(self).vesting_map()[proposal_index as u64].vesting.remaining_amount > 0
                && now > old(self).vesting_map()[proposal_index as u64].vesting.start_unlock()
                && old(self).vesting_map()[proposal_index as u64].vesting.config.period == 0
                ==> errs(r, InvestmentDaoError::ArithmeticOverflow),
            old(self).vesting_map().dom().contains(proposal_index as u64)
                && old(self).vesting_map()[proposal_index as u64].vesting.config.authority
                    == payer
                && old(self).vesting_map()[proposal_index as u64].vesting.remaining_amount > 0
                && now > old(self).vesting_map()[proposal_index as u64].vesting.start_unlock()
                && old(self).vesting_map()[proposal_index as u64].vesting.config.period > 0
                && old(self).vesting_map()[proposal_index as u64].vesting.elapsed_periods(now)
                    > 0 && r is Err ==> errs(r, InvestmentDaoError::ArithmeticOverflow),
            r is Ok ==> {
                let piu = proposal_index as u64;
                let v = old(self).vesting_map()[piu].vesting;
                let c = v.claimable_amount(now) as u64;
                &&& final(self).vesting_map() == old(self).vesting_map().insert(
                    piu,
                    VestingEscrow {
                        vesting: v.after_claim(c, now),
                        balance: (old(self).vesting_map()[piu].balance - c) as u64,
                    },
                )
                &&& final(self).vesting_map()[piu].vesting.total_claimed
                    == v.total_claimed + c
                &&& final(self).vesting_map()[piu].vesting.remaining_amount
                    == v.remaining_amount - c
            },
            final(self).dao == old(self).dao,
            final(self).address == old(self).address,
            final(self).treasury == old(self).treasury,
            final(self).investors == old(self).investors,
            final(self).financial_records == old(self).financial_records,
            final(self).proposals == old(self).proposals,
            final(self).vote_records == old(self).vote_records,
            final(self).withdrawal_escrows == old(self).withdrawal_escrows,
            final(self).withdrawal_records == old(self).withdrawal_records,
    {
        let vi = match self.find_vesting_escrow(proposal_index as u64) {
            None => {
                return Err(InvestmentDaoError::RecordNotFound);
            },
            Some(vi) => vi,
        };
        let escrow = self.vesting_escrows[vi];
        let vesting = escrow.vesting;
        if vesting.config.authority != payer {
            return Err(InvestmentDaoError::InvalidVestingAuthority);
        }
        if vesting.remaining_amount == 0 {
            return Err(InvestmentDaoError::AllTokensClaimed);
        }
        let start_unlock: i128 = vesting.created_at as i128 + vesting.config.cliff as i128;
        if !((now as i128) > start_unlock) {
            return Err(InvestmentDaoError::VestingNotStarted);
        }
        if vesting.config.period == 0 {
            return Err(InvestmentDaoError::ArithmeticOverflow);
        }
        let time_passed_since_cliff: i128 = now as i128 - start_unlock;
        let passed_slots: i128 = time_passed_since_cliff / (vesting.config.period as i128);
        proof {
            assert(passed_slots == vesting.elapsed_periods(now));
            assert(passed_slots <= time_passed_since_cliff) by (nonlinear_arith)
                requires 0 < time_passed_since_cliff,
                    passed_slots == time_passed_since_cliff / (vesting.config.period as i128),
                    vesting.config.period >= 1;
        }
        if passed_slots == 0 {
            return Err(InvestmentDaoError::NoClaimableTokens);
        }
        proof {
            assert(time_passed_since_cliff <= u64::MAX);
            assert(passed_slots as int * (vesting.config.amount_per_period as int)
                <= u64::MAX * u64::MAX) by (nonlinear_arith)
                requires 0 <= passed_slots <= u64::MAX,
                    0 <= vesting.config.amount_per_period <= u64::MAX;
        }
        let claimable_wide: u128 = (passed_slots as u128)
            * (vesting.config.amount_per_period as u128);
        proof {
            assert(claimable_wide == vesting.claimable_amount(now));
        }
        if claimable_wide > u64::MAX as u128 {
            return Err(InvestmentDaoError::ArithmeticOverflow);
        }
        let claimable = claimable_wide as u64;
        if claimable > vesting.remaining_amount {
            return Err(InvestmentDaoError::ArithmeticOverflow);
        }
        let new_escrow = VestingEscrow {
            vesting: Vesting {
                config: vesting.config,
                created_at: vesting.created_at,
                proposal: vesting.proposal,
                total_claimed: vesting.total_claimed + claimable,
                last_claim_at: now,
                remaining_amount: vesting.remaining_amount - claimable,
            },
            balance: escrow.balance - claimable,
        };
        proof {
            lemma_key_map_update(self.vesting_escrows@, vesting_escrow_key(), vi as int, new_escrow);
            lemma_sum_by_update(self.vesting_escrows@, vesting_escrow_balance(), vi as int, new_escrow);
            lemma_sum_by_update(self.vesting_escrows@, vesting_escrow_claimed(), vi as int, new_escrow);
        }
        let ghost pre = self.vesting_escrows@;
        self.vesting_escrows[vi] = new_escrow;
        proof {
            assert forall|a: int, b: int|
                0 <= a < self.vesting_escrows@.len() && 0 <= b < self.vesting_escrows@.len()
                    && a != b
                implies vesting_escrow_key()(self.vesting_escrows@[a])
                    != vesting_escrow_key()(self.vesting_escrows@[b]) by {
                assert(keys_distinct(pre, vesting_escrow_key()));
                assert(vesting_escrow_key()(pre[a]) != vesting_escrow_key()(pre[b]));
            }
        }
        Ok(())
    }
}

/// In every well-formed state, the DAO's pooled total equals the sum of
/// its members' cumulative deposit amounts. Every operation requires and
/// re-establishes well-formedness, so this holds after any sequence of
/// deposits, withdrawals and claims.
pub proof fn lemma_deposits_balanced(s: DaoState)
    requires
        s.wf(),
    ensures
        s.dao.total_deposited == sum_by(s.financial_records@, fr_deposit()),
{
}

/// In every well-formed state, no value is created or destroyed: the
/// treasury, the escrow holdings, and everything already paid out as
/// withdrawals or vested claims add up to exactly what was ever pooled.
pub proof fn lemma_funds_conserved(s: DaoState)
    requires
        s.wf(),
    ensures
        s.treasury + s.withdrawal_balances_total() + s.vesting_balances_total()
            + s.withdrawn_total() + s.vested_claimed_total() == s.dao.total_deposited,
{
}

/// In every well-formed state, no two vote records exist for the same
/// (proposal, voter) pair: a ballot's key is occupied once and for all,
/// which is what makes a second vote fail.
pub proof fn lemma_no_double_vote(s: DaoState, i: int, j: int)
    requires
        s.wf(),
        0 <= i < s.vote_records@.len(),
        0 <= j < s.vote_records@.len(),
        i != j,
    ensures
        !(s.vote_records@[i].proposal == s.vote_records@[j].proposal
            && s.vote_records@[i].authority == s.vote_records@[j].authority),
{
    assert(vote_key()(s.vote_records@[i]) != vote_key()(s.vote_records@[j]));
}

/// In every well-formed state, no two claim records exist for the same
/// (withdrawal, claimant) pair: nobody can claim twice against the same
/// withdrawal artifact.
pub proof fn lemma_no_double_claim(s: DaoState, i: int, j: int)
    requires
        s.wf(),
        0 <= i < s.withdrawal_records@.len(),
        0 <= j < s.withdrawal_records@.len(),
        i != j,
    ensures
        !(s.withdrawal_records@[i].proposal == s.withdrawal_records@[j].proposal
            && s.withdrawal_records@[i].authority == s.withdrawal_records@[j].authority),
{
    assert(claim_key()(s.withdrawal_records@[i]) != claim_key()(s.withdrawal_records@[j]));
}

} // verus!
