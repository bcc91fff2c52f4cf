use vstd::prelude::*;

use crate::investment_dao::Currency;
use crate::investment_dao::InvestmentDao;

verus! {

/// Which program owns a DAO's treasury holding record: the engine itself
/// for the native currency, the token program for a fungible token.
pub fn get_treasury_owning_program(
    investment_dao: &InvestmentDao,
    token_program: u64,
    program_id: u64,
) -> (r: u64)
    ensures
        investment_dao.currency is Sol ==> r == program_id,
        investment_dao.currency is Spl ==> r == token_program,
{
    match investment_dao.currency {
        Currency::Sol => program_id,
        Currency::Spl => token_program,
    }
}

} // verus!
