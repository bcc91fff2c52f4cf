use vstd::prelude::*;

verus! {

/// The failure kinds that every operation of the engine can surface.
///
/// The first fourteen are rule violations of the governance engine itself.
/// The last three stand for failures of the hosting record store and of
/// checked arithmetic: creating a record at a key that is already occupied,
/// reading a record that does not exist, and a counter or balance update
/// that would overflow or underflow. Whatever the kind, the failing
/// operation aborts as a whole: no partial mutation is ever visible.
#[derive(Clone, Copy, PartialEq, Eq, Structural, Debug)]
pub enum InvestmentDaoError {
    InvalidDaoAuthority,
    InvalidInvitationStatus,
    InvalidInvestorWallet,
    InvalidTreasuryAddress,
    InvalidDepositMint,
    NotPartOfDao,
    InvalidGovernanceConfig,
    ProposalNotInVotingState,
    InvalidProposalState,
    InvalidProposalData,
    VestingNotStarted,
    NoClaimableTokens,
    InvalidVestingAuthority,
    AllTokensClaimed,
    RecordAlreadyExists,
    RecordNotFound,
    ArithmeticOverflow,
}

/// True when `r` is exactly the error `e`.
pub open spec fn errs<T>(r: Result<T, InvestmentDaoError>, e: InvestmentDaoError) -> bool {
    r == Err::<T, InvestmentDaoError>(e)
}

} // verus!
