use aave_craft::dao_state::DaoState;
use aave_craft::errors::InvestmentDaoError;
use aave_craft::investment_dao::{Currency, Governance, InvestorState, InvitationAction};

const AUTHORITY: u64 = 1;
const ALICE: u64 = 2;
const BOB: u64 = 3;

fn new_dao(quorum: u8) -> DaoState {
    DaoState::create_investment_dao(
        10,
        AUTHORITY,
        String::from("Fund"),
        Governance { voting_quorum: quorum, max_voting_time: 86400 },
        0,
        1000,
    )
    .unwrap()
}

#[test]
fn create_dao_native_currency() {
    let dao = new_dao(50);
    assert_eq!(dao.dao.authority, AUTHORITY);
    assert_eq!(dao.dao.name, String::from("Fund"));
    assert!(matches!(dao.dao.currency, Currency::Sol));
    assert_eq!(dao.dao.investors_count, 0);
    assert_eq!(dao.dao.total_deposited, 0);
    assert_eq!(dao.dao.proposals_count, 0);
    assert_eq!(dao.treasury, 0);
    assert_eq!(dao.investors.len(), 1);
    assert_eq!(dao.investors[0].address, AUTHORITY);
    assert!(matches!(dao.investors[0].state, InvestorState::Accepted));
    assert_eq!(dao.investors[0].joined_at, 1000);
}

#[test]
fn create_dao_token_currency() {
    let dao = DaoState::create_investment_dao(
        10,
        AUTHORITY,
        String::from("TokenFund"),
        Governance { voting_quorum: 30, max_voting_time: 600 },
        77,
        0,
    )
    .unwrap();
    assert!(matches!(dao.dao.currency, Currency::Spl));
    assert_eq!(dao.dao.denominated_currency, 77);
}

#[test]
fn create_dao_rejects_quorum_above_hundred() {
    let r = DaoState::create_investment_dao(
        10,
        AUTHORITY,
        String::from("Fund"),
        Governance { voting_quorum: 101, max_voting_time: 86400 },
        0,
        0,
    );
    assert_eq!(r.err(), Some(InvestmentDaoError::InvalidGovernanceConfig));
}

#[test]
fn invite_requires_dao_authority() {
    let mut dao = new_dao(50);
    let r = dao.invite_dao_investor(ALICE, BOB, 1100);
    assert_eq!(r, Err(InvestmentDaoError::InvalidDaoAuthority));
    assert_eq!(dao.investors.len(), 1);
}

#[test]
fn invite_twice_fails_on_occupied_record() {
    let mut dao = new_dao(50);
    assert_eq!(dao.invite_dao_investor(AUTHORITY, ALICE, 1100), Ok(()));
    let r = dao.invite_dao_investor(AUTHORITY, ALICE, 1200);
    assert_eq!(r, Err(InvestmentDaoError::RecordAlreadyExists));
    assert_eq!(dao.investors.len(), 2);
}

#[test]
fn accept_moves_record_from_invited_exactly_once() {
    let mut dao = new_dao(50);
    dao.invite_dao_investor(AUTHORITY, ALICE, 1100).unwrap();
    assert!(matches!(dao.investors[1].state, InvestorState::Invited));
    assert_eq!(dao.investors[1].joined_at, 0);

    let r = dao.accept_or_reject_dao_invitation(ALICE, ALICE, InvitationAction::Accept, 1200);
    assert_eq!(r, Ok(()));
    assert!(matches!(dao.investors[1].state, InvestorState::Accepted));
    assert_eq!(dao.investors[1].joined_at, 1200);
    assert_eq!(dao.dao.investors_count, 1);

    let again = dao.accept_or_reject_dao_invitation(ALICE, ALICE, InvitationAction::Accept, 1300);
    assert_eq!(again, Err(InvestmentDaoError::InvalidInvitationStatus));
    assert_eq!(dao.dao.investors_count, 1);
    assert_eq!(dao.investors[1].joined_at, 1200);
}

#[test]
fn accept_requires_the_invited_wallet() {
    let mut dao = new_dao(50);
    dao.invite_dao_investor(AUTHORITY, ALICE, 1100).unwrap();
    let r = dao.accept_or_reject_dao_invitation(BOB, ALICE, InvitationAction::Accept, 1200);
    assert_eq!(r, Err(InvestmentDaoError::InvalidInvestorWallet));
    assert!(matches!(dao.investors[1].state, InvestorState::Invited));
}

#[test]
fn respond_without_record_fails() {
    let mut dao = new_dao(50);
    let r = dao.accept_or_reject_dao_invitation(ALICE, ALICE, InvitationAction::Accept, 1200);
    assert_eq!(r, Err(InvestmentDaoError::RecordNotFound));
}

#[test]
fn reject_removes_record_and_reinvitation_works() {
    let mut dao = new_dao(50);
    dao.invite_dao_investor(AUTHORITY, ALICE, 1100).unwrap();
    let r = dao.accept_or_reject_dao_invitation(ALICE, ALICE, InvitationAction::Reject, 1200);
    assert_eq!(r, Ok(()));
    assert_eq!(dao.investors.len(), 1);
    assert_eq!(dao.dao.investors_count, 0);

    assert_eq!(dao.invite_dao_investor(AUTHORITY, ALICE, 1300), Ok(()));
    assert_eq!(dao.investors.len(), 2);
    assert!(matches!(dao.investors[1].state, InvestorState::Invited));
}

#[test]
fn deposit_requires_accepted_membership() {
    let mut dao = new_dao(50);
    dao.invite_dao_investor(AUTHORITY, ALICE, 1100).unwrap();
    let r = dao.deposit_funds(ALICE, None, 500, 1200);
    assert_eq!(r, Err(InvestmentDaoError::NotPartOfDao));
    assert_eq!(dao.dao.total_deposited, 0);

    let stranger = dao.deposit_funds(BOB, None, 500, 1200);
    assert_eq!(stranger, Err(InvestmentDaoError::RecordNotFound));
}

#[test]
fn deposits_accumulate_and_match_pool_total() {
    let mut dao = new_dao(50);
    dao.invite_dao_investor(AUTHORITY, ALICE, 1100).unwrap();
    dao.accept_or_reject_dao_invitation(ALICE, ALICE, InvitationAction::Accept, 1150).unwrap();
    dao.invite_dao_investor(AUTHORITY, BOB, 1100).unwrap();
    dao.accept_or_reject_dao_invitation(BOB, BOB, InvitationAction::Accept, 1150).unwrap();

    dao.deposit_funds(ALICE, None, 250, 1200).unwrap();
    dao.deposit_funds(BOB, None, 750, 1300).unwrap();
    dao.deposit_funds(ALICE, None, 100, 1400).unwrap();

    assert_eq!(dao.dao.total_deposited, 1100);
    assert_eq!(dao.dao.total_deposits_count, 3);
    assert_eq!(dao.treasury, 1100);

    let sum: u64 = dao.financial_records.iter().map(|f| f.total_deposit_amount).sum();
    assert_eq!(sum, dao.dao.total_deposited);

    let alice_record = dao.financial_records.iter().find(|f| f.authority == ALICE).unwrap();
    assert_eq!(alice_record.total_deposit_amount, 350);
    assert_eq!(alice_record.last_deposit_at, 1400);
    assert_eq!(alice_record.total_withdrawn_amount, 0);
}

#[test]
fn deposit_overflow_aborts_the_whole_operation() {
    let mut dao = new_dao(50);
    dao.deposit_funds(AUTHORITY, None, u64::MAX, 1200).unwrap();
    let r = dao.deposit_funds(AUTHORITY, None, 1, 1300);
    assert_eq!(r, Err(InvestmentDaoError::ArithmeticOverflow));
    assert_eq!(dao.dao.total_deposited, u64::MAX);
    assert_eq!(dao.dao.total_deposits_count, 1);
    assert_eq!(dao.treasury, u64::MAX);
    assert_eq!(dao.financial_records[0].total_deposit_amount, u64::MAX);
}

#[test]
fn token_deposit_checks_the_mint() {
    let mut dao = DaoState::create_investment_dao(
        10,
        AUTHORITY,
        String::from("TokenFund"),
        Governance { voting_quorum: 50, max_voting_time: 600 },
        77,
        0,
    )
    .unwrap();
    let wrong = dao.deposit_funds(AUTHORITY, Some(78), 100, 10);
    assert_eq!(wrong, Err(InvestmentDaoError::InvalidDepositMint));
    assert_eq!(dao.dao.total_deposited, 0);

    let missing = dao.deposit_funds(AUTHORITY, None, 100, 10);
    assert_eq!(missing, Err(InvestmentDaoError::RecordNotFound));

    assert_eq!(dao.deposit_funds(AUTHORITY, Some(77), 100, 10), Ok(()));
    assert_eq!(dao.dao.total_deposited, 100);
}
