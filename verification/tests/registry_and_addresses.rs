use aave_craft::addresses::{
    derive_treasury_address, derive_vesting_data_address, derive_withdrawal_data_address,
};
use aave_craft::dao_state::DaoState;
use aave_craft::errors::InvestmentDaoError;
use aave_craft::investment_dao::{Governance, InvestmentDao};
use aave_craft::registry::DaoRegistry;
use aave_craft::utils::get_treasury_owning_program;

const AUTHORITY: u64 = 1;

fn governance() -> Governance {
    Governance { voting_quorum: 50, max_voting_time: 86400 }
}

#[test]
fn registry_creates_each_name_once() {
    let mut registry = DaoRegistry::new();
    let first = registry.create_investment_dao(AUTHORITY, String::from("Fund"), governance(), 0, 0);
    assert_eq!(first, Ok(0));
    let second =
        registry.create_investment_dao(AUTHORITY, String::from("Other"), governance(), 0, 0);
    assert_eq!(second, Ok(1));
    assert_eq!(registry.daos.len(), 2);
    assert_eq!(registry.daos[1].address, 1);

    let collision =
        registry.create_investment_dao(AUTHORITY, String::from("Fund"), governance(), 0, 0);
    assert_eq!(collision, Err(InvestmentDaoError::RecordAlreadyExists));
    assert_eq!(registry.daos.len(), 2);
}

#[test]
fn registry_rejects_a_bad_quorum() {
    let mut registry = DaoRegistry::new();
    let r = registry.create_investment_dao(
        AUTHORITY,
        String::from("Fund"),
        Governance { voting_quorum: 101, max_voting_time: 86400 },
        0,
        0,
    );
    assert_eq!(r, Err(InvestmentDaoError::InvalidGovernanceConfig));
    assert_eq!(registry.daos.len(), 0);
}

#[test]
fn treasury_seed_check_accepts_only_the_derived_record() {
    let derived = derive_treasury_address(10, 77);
    assert_eq!(InvestmentDao::check_treasury_seeds(&derived, 10, 77), Ok(()));

    let other_dao = derive_treasury_address(11, 77);
    assert_eq!(
        InvestmentDao::check_treasury_seeds(&other_dao, 10, 77),
        Err(InvestmentDaoError::InvalidTreasuryAddress)
    );
    let other_currency = derive_treasury_address(10, 78);
    assert_eq!(
        InvestmentDao::check_treasury_seeds(&other_currency, 10, 77),
        Err(InvestmentDaoError::InvalidTreasuryAddress)
    );
}

#[test]
fn sub_record_seed_checks_accept_only_their_derivation() {
    let dao = DaoState::create_investment_dao(
        10,
        AUTHORITY,
        String::from("Fund"),
        governance(),
        0,
        0,
    )
    .unwrap();
    let mut with_proposal = dao;
    with_proposal
        .create_proposal(
            AUTHORITY,
            aave_craft::proposal::ProposalType::Withdrawal,
            String::from("payout"),
            String::from("d"),
            Some(1),
            None,
            10,
        )
        .unwrap();
    let proposal = &with_proposal.proposals[0];

    let withdrawal = derive_withdrawal_data_address(10, 0);
    assert_eq!(proposal.check_withdrwal_data_seeds(&withdrawal, 10, 0), Ok(()));
    assert_eq!(
        proposal.check_withdrwal_data_seeds(&withdrawal, 10, 1),
        Err(InvestmentDaoError::InvalidProposalData)
    );
    // A vesting record never passes for a withdrawal record.
    let vesting = derive_vesting_data_address(10, 0);
    assert_eq!(
        proposal.check_withdrwal_data_seeds(&vesting, 10, 0),
        Err(InvestmentDaoError::InvalidProposalData)
    );
    assert_eq!(proposal.check_vesting_data_seeds(&vesting, 10, 0), Ok(()));
    assert_eq!(
        proposal.check_vesting_data_seeds(&withdrawal, 10, 0),
        Err(InvestmentDaoError::InvalidProposalData)
    );
}

#[test]
fn treasury_owner_follows_the_currency() {
    let native = DaoState::create_investment_dao(
        10,
        AUTHORITY,
        String::from("Fund"),
        governance(),
        0,
        0,
    )
    .unwrap();
    assert_eq!(get_treasury_owning_program(&native.dao, 500, 900), 900);

    let token = DaoState::create_investment_dao(
        11,
        AUTHORITY,
        String::from("TokenFund"),
        governance(),
        77,
        0,
    )
    .unwrap();
    assert_eq!(get_treasury_owning_program(&token.dao, 500, 900), 500);
}
