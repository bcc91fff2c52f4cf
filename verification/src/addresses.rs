use vstd::prelude::*;

verus! {

/// The role tag of a derived record address. Every record owned by a DAO
/// or by one of its proposals lives at an address derived deterministically
/// from a role tag and the parent's identity, so lookups never need an
/// index and record creation can fail on an occupied address.
#[derive(Clone, Copy, PartialEq, Eq, Structural, Debug)]
pub enum SeedRole {
    Dao,
    Treasury,
    Proposal,
    Withdrawal,
    Vesting,
}

/// A deterministically derived record address: a role tag, the identity of
/// the parent record, and one further distinguishing value (a currency, a
/// proposal index, or zero where the role needs none). Two addresses are
/// equal exactly when all three parts are equal, so derivation is
/// collision-free by construction.
#[derive(Clone, Copy, PartialEq, Eq, Structural, Debug)]
pub struct RecordAddress {
    pub role: SeedRole,
    pub parent: u64,
    pub item: u64,
}

/// The address of a DAO's treasury holding record.
pub open spec fn treasury_address(dao: u64, denominated_currency: u64) -> RecordAddress {
    RecordAddress { role: SeedRole::Treasury, parent: dao, item: denominated_currency }
}

/// The address of the withdrawal artifact of one proposal of a DAO.
pub open spec fn withdrawal_data_address(dao: u64, proposal_index: u64) -> RecordAddress {
    RecordAddress { role: SeedRole::Withdrawal, parent: dao, item: proposal_index }
}

/// The address of the vesting schedule of one proposal of a DAO.
pub open spec fn vesting_data_address(dao: u64, proposal_index: u64) -> RecordAddress {
    RecordAddress { role: SeedRole::Vesting, parent: dao, item: proposal_index }
}

/// Derives the treasury address of a DAO.
pub fn derive_treasury_address(dao: u64, denominated_currency: u64) -> (r: RecordAddress)
    ensures
        r == treasury_address(dao, denominated_currency),
{
    RecordAddress { role: SeedRole::Treasury, parent: dao, item: denominated_currency }
}

/// Derives the address of the withdrawal artifact of one proposal.
pub fn derive_withdrawal_data_address(dao: u64, proposal_index: u64) -> (r: RecordAddress)
    ensures
        r == withdrawal_data_address(dao, proposal_index),
{
    RecordAddress { role: SeedRole::Withdrawal, parent: dao, item: proposal_index }
}

/// Derives the address of the vesting schedule of one proposal.
pub fn derive_vesting_data_address(dao: u64, proposal_index: u64) -> (r: RecordAddress)
    ensures
        r == vesting_data_address(dao, proposal_index),
{
    RecordAddress { role: SeedRole::Vesting, parent: dao, item: proposal_index }
}

} // verus!
