use aave_craft::addresses::derive_treasury_address;
use aave_craft::addresses::derive_withdrawal_data_address;
use aave_craft::dao_state::DaoState;
use aave_craft::errors::InvestmentDaoError;
use aave_craft::investment_dao::{Governance, InvitationAction};
use aave_craft::proposal::{Proposal, ProposalState, ProposalType, VoteOption};

const AUTHORITY: u64 = 1;
const ALICE: u64 = 2;
const BOB: u64 = 3;

fn dao_with_member(quorum: u8, member: u64, deposit: u64) -> DaoState {
    let mut dao = DaoState::create_investment_dao(
        10,
        AUTHORITY,
        String::from("Fund"),
        Governance { voting_quorum: quorum, max_voting_time: 86400 },
        0,
        1000,
    )
    .unwrap();
    if member != AUTHORITY {
        dao.invite_dao_investor(AUTHORITY, member, 1000).unwrap();
        dao.accept_or_reject_dao_invitation(member, member, InvitationAction::Accept, 1000)
            .unwrap();
    }
    if deposit > 0 {
        dao.deposit_funds(member, None, deposit, 1000).unwrap();
    }
    dao
}

fn withdrawal_proposal(dao: &mut DaoState, author: u64, amount: u64) {
    dao.create_proposal(
        author,
        ProposalType::Withdrawal,
        String::from("payout"),
        String::from("return some funds"),
        Some(amount),
        None,
        2000,
    )
    .unwrap();
}

#[test]
fn threshold_is_snapshotted_from_the_pool() {
    let dao = dao_with_member(50, ALICE, 1000);
    assert_eq!(Proposal::calculate_voting_treshold(&dao.dao), 500);
}

#[test]
fn proposal_snapshot_fields() {
    let mut dao = dao_with_member(50, ALICE, 1000);
    withdrawal_proposal(&mut dao, ALICE, 400);
    assert_eq!(dao.dao.proposals_count, 1);
    let p = &dao.proposals[0];
    assert_eq!(p.vote_threshold, 500);
    assert_eq!(p.voting_ends_at, 2000 + 86400);
    assert_eq!(p.created_at, 2000);
    assert_eq!(p.yes_votes_count, 0);
    assert_eq!(p.no_votes_count, 0);
    assert!(matches!(p.proposal_state, ProposalState::Voting));
    assert_eq!(p.withdraw_amount, Some(400));
    assert!(p.vesting_config.is_none());

    // A later deposit does not move an existing proposal's threshold.
    dao.deposit_funds(ALICE, None, 9000, 2100).unwrap();
    assert_eq!(dao.proposals[0].vote_threshold, 500);
    assert_eq!(Proposal::calculate_voting_treshold(&dao.dao), 5000);
}

#[test]
fn proposal_needs_accepted_author() {
    let mut dao = dao_with_member(50, ALICE, 1000);
    dao.invite_dao_investor(AUTHORITY, BOB, 1500).unwrap();
    let r = dao.create_proposal(
        BOB,
        ProposalType::Withdrawal,
        String::from("payout"),
        String::from("d"),
        Some(1),
        None,
        2000,
    );
    assert_eq!(r, Err(InvestmentDaoError::NotPartOfDao));
    assert_eq!(dao.dao.proposals_count, 0);
}

#[test]
fn vote_needs_threshold_plus_one_to_tip() {
    // Pool of 1000 at 50 percent quorum: the threshold is 500, and a tally
    // tips only when it exceeds 501.
    let mut dao = dao_with_member(50, ALICE, 501);
    dao.invite_dao_investor(AUTHORITY, BOB, 1000).unwrap();
    dao.accept_or_reject_dao_invitation(BOB, BOB, InvitationAction::Accept, 1000).unwrap();
    dao.deposit_funds(BOB, None, 499, 1000).unwrap();
    assert_eq!(dao.dao.total_deposited, 1000);
    withdrawal_proposal(&mut dao, ALICE, 400);
    assert_eq!(dao.proposals[0].vote_threshold, 500);

    // 501 is not strictly above threshold + 1.
    dao.cast_vote(ALICE, 0, VoteOption::Yes, 2100).unwrap();
    assert_eq!(dao.proposals[0].yes_votes_count, 501);
    assert!(matches!(dao.proposals[0].proposal_state, ProposalState::Voting));

    // 502 is.
    dao.cast_vote(BOB, 0, VoteOption::Yes, 2200).unwrap();
    assert_eq!(dao.proposals[0].yes_votes_count, 1000);
    assert!(matches!(dao.proposals[0].proposal_state, ProposalState::Succeded));
}

#[test]
fn no_votes_tip_to_defeated() {
    let mut dao = dao_with_member(0, ALICE, 10);
    withdrawal_proposal(&mut dao, ALICE, 5);
    assert_eq!(dao.proposals[0].vote_threshold, 0);
    dao.cast_vote(ALICE, 0, VoteOption::No, 2100).unwrap();
    assert_eq!(dao.proposals[0].no_votes_count, 10);
    assert!(matches!(dao.proposals[0].proposal_state, ProposalState::Defeated));
}

#[test]
fn second_vote_by_same_member_fails() {
    let mut dao = dao_with_member(50, ALICE, 1000);
    withdrawal_proposal(&mut dao, ALICE, 400);
    dao.cast_vote(ALICE, 0, VoteOption::Yes, 2100).unwrap();
    assert_eq!(dao.vote_records.len(), 1);
    assert_eq!(dao.vote_records[0].voter_weight, 1000);

    let again = dao.cast_vote(ALICE, 0, VoteOption::Yes, 2200);
    assert_eq!(again, Err(InvestmentDaoError::RecordAlreadyExists));
    assert_eq!(dao.vote_records.len(), 1);
    assert_eq!(dao.proposals[0].yes_votes_count, 1000);
}

#[test]
fn vote_without_deposit_record_fails() {
    let mut dao = dao_with_member(50, ALICE, 1000);
    dao.invite_dao_investor(AUTHORITY, BOB, 1000).unwrap();
    dao.accept_or_reject_dao_invitation(BOB, BOB, InvitationAction::Accept, 1000).unwrap();
    withdrawal_proposal(&mut dao, ALICE, 400);
    let r = dao.cast_vote(BOB, 0, VoteOption::Yes, 2100);
    assert_eq!(r, Err(InvestmentDaoError::RecordNotFound));
}

#[test]
fn vote_weight_is_snapshotted_at_cast_time() {
    let mut dao = dao_with_member(0, ALICE, 300);
    dao.invite_dao_investor(AUTHORITY, BOB, 1000).unwrap();
    dao.accept_or_reject_dao_invitation(BOB, BOB, InvitationAction::Accept, 1000).unwrap();
    dao.deposit_funds(BOB, None, 40000, 1000).unwrap();
    withdrawal_proposal(&mut dao, ALICE, 100);
    dao.cast_vote(ALICE, 0, VoteOption::Yes, 2100).unwrap();
    assert_eq!(dao.vote_records[0].voter_weight, 300);
    // A deposit after the ballot does not change the recorded weight.
    dao.deposit_funds(ALICE, None, 700, 2200).unwrap();
    assert_eq!(dao.vote_records[0].voter_weight, 300);
}

#[test]
fn vote_on_settled_proposal_fails() {
    let mut dao = dao_with_member(0, ALICE, 10);
    dao.invite_dao_investor(AUTHORITY, BOB, 1000).unwrap();
    dao.accept_or_reject_dao_invitation(BOB, BOB, InvitationAction::Accept, 1000).unwrap();
    dao.deposit_funds(BOB, None, 10, 1000).unwrap();
    withdrawal_proposal(&mut dao, ALICE, 5);
    dao.cast_vote(ALICE, 0, VoteOption::Yes, 2100).unwrap();
    assert!(matches!(dao.proposals[0].proposal_state, ProposalState::Succeded));

    let late = dao.cast_vote(BOB, 0, VoteOption::Yes, 2200);
    assert_eq!(late, Err(InvestmentDaoError::ProposalNotInVotingState));
    assert_eq!(dao.vote_records.len(), 1);
}

#[test]
fn try_tip_vote_is_pure_on_error() {
    let mut p = Proposal {
        dao: 10,
        authority: ALICE,
        name: String::from("payout"),
        description: String::from("d"),
        proposal_type: ProposalType::Withdrawal,
        withdraw_amount: Some(5),
        vesting_config: None,
        proposal_state: ProposalState::Defeated,
        vote_threshold: 3,
        voting_ends_at: 100,
        yes_votes_count: 0,
        no_votes_count: 4,
        created_at: 0,
    };
    let r = p.try_tip_vote(2, &VoteOption::Yes);
    assert_eq!(r, Err(InvestmentDaoError::ProposalNotInVotingState));
    assert_eq!(p.yes_votes_count, 0);
    assert!(matches!(p.proposal_state, ProposalState::Defeated));
}

#[test]
fn execute_is_guarded_and_idempotent_in_effect() {
    let mut dao = dao_with_member(50, ALICE, 1000);
    withdrawal_proposal(&mut dao, ALICE, 300);
    let treasury = derive_treasury_address(dao.address, dao.dao.denominated_currency);
    let sub = derive_withdrawal_data_address(dao.address, 0);

    // Still voting: execution is refused.
    let early = dao.execute_proposal(0, &treasury, &sub, 3000);
    assert_eq!(early, Err(InvestmentDaoError::InvalidProposalState));
    assert!(matches!(dao.proposals[0].proposal_state, ProposalState::Voting));

    dao.cast_vote(ALICE, 0, VoteOption::Yes, 2100).unwrap();
    assert!(matches!(dao.proposals[0].proposal_state, ProposalState::Succeded));

    assert_eq!(dao.execute_proposal(0, &treasury, &sub, 3000), Ok(()));
    assert!(matches!(dao.proposals[0].proposal_state, ProposalState::Executed));
    assert_eq!(dao.treasury, 700);
    assert_eq!(dao.withdrawal_escrows.len(), 1);
    assert_eq!(dao.withdrawal_escrows[0].data.amount, 300);
    assert_eq!(dao.withdrawal_escrows[0].balance, 300);
    assert_eq!(dao.withdrawal_escrows[0].data.total_withdrawn, 0);

    // A second execution fails and funds move only once.
    let again = dao.execute_proposal(0, &treasury, &sub, 3100);
    assert_eq!(again, Err(InvestmentDaoError::InvalidProposalState));
    assert!(matches!(dao.proposals[0].proposal_state, ProposalState::Executed));
    assert_eq!(dao.treasury, 700);
    assert_eq!(dao.withdrawal_escrows.len(), 1);
}

#[test]
fn execute_validates_the_handed_in_records() {
    let mut dao = dao_with_member(50, ALICE, 1000);
    withdrawal_proposal(&mut dao, ALICE, 300);
    dao.cast_vote(ALICE, 0, VoteOption::Yes, 2100).unwrap();

    let treasury = derive_treasury_address(dao.address, dao.dao.denominated_currency);
    let sub = derive_withdrawal_data_address(dao.address, 0);

    let wrong_treasury = derive_treasury_address(dao.address + 1, dao.dao.denominated_currency);
    let r = dao.execute_proposal(0, &wrong_treasury, &sub, 3000);
    assert_eq!(r, Err(InvestmentDaoError::InvalidTreasuryAddress));

    let wrong_sub = derive_withdrawal_data_address(dao.address, 1);
    let r = dao.execute_proposal(0, &treasury, &wrong_sub, 3000);
    assert_eq!(r, Err(InvestmentDaoError::InvalidProposalData));

    assert!(matches!(dao.proposals[0].proposal_state, ProposalState::Succeded));
    assert_eq!(dao.execute_proposal(0, &treasury, &sub, 3000), Ok(()));
}

#[test]
fn execute_fails_whole_when_treasury_is_short() {
    // The approved amount exceeds what the treasury holds: the execution
    // aborts as a whole and the state stays Succeded.
    let mut dao = dao_with_member(0, ALICE, 100);
    withdrawal_proposal(&mut dao, ALICE, 500);
    dao.cast_vote(ALICE, 0, VoteOption::Yes, 2100).unwrap();
    let treasury = derive_treasury_address(dao.address, dao.dao.denominated_currency);
    let sub = derive_withdrawal_data_address(dao.address, 0);
    let r = dao.execute_proposal(0, &treasury, &sub, 3000);
    assert_eq!(r, Err(InvestmentDaoError::ArithmeticOverflow));
    assert!(matches!(dao.proposals[0].proposal_state, ProposalState::Succeded));
    assert_eq!(dao.treasury, 100);
    assert_eq!(dao.withdrawal_escrows.len(), 0);
}
