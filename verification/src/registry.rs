use vstd::prelude::*;

use crate::dao_state::DaoState;
use crate::errors::InvestmentDaoError;
use crate::errors::errs;
use crate::investment_dao::Governance;

verus! {

/// The root store of the engine: every DAO, each under the identity
/// derived from its chosen name. At most one DAO per name can ever be
/// created; a second creation fails on the identity collision.
pub struct DaoRegistry {
    pub daos: Vec<DaoState>,
}

impl DaoRegistry {
    /// Every DAO is well formed, lives at its own index, and no two DAOs
    /// share a name.
    pub open spec fn wf(self) -> bool {
        &&& forall|i: int| 0 <= i < self.daos@.len() ==> (#[trigger] self.daos@[i]).wf()
            && self.daos@[i].address == i as u64
        &&& forall|i: int, j: int|
            0 <= i < self.daos@.len() && 0 <= j < self.daos@.len() && i != j
                ==> (#[trigger] self.daos@[i]).dao.name@ != (#[trigger] self.daos@[j]).dao.name@
    }

    /// True when some DAO of this registry carries `name`.
    pub open spec fn contains_name(self, name: Seq<char>) -> bool {
        exists|i: int| 0 <= i < self.daos@.len() && (#[trigger] self.daos@[i]).dao.name@ == name
    }

    /// An empty registry.
    pub fn new() -> (r: DaoRegistry)
        ensures
            r.wf(),
            r.daos@.len() == 0,
    {
        DaoRegistry { daos: Vec::new() }
    }

    /// The index of the DAO named `name`, if one exists.
    fn find_dao_by_name(&self, name: &String) -> (r: Option<usize>)
        ensures
            match r {
                Some(i) => i < self.daos@.len() && self.daos@[i as int].dao.name@ == name@,
                None => !self.contains_name(name@),
            },
    {
        let n = self.daos.len();
        let mut j: usize = 0;
        while j < n
            invariant
                j <= n,
                n == self.daos@.len(),
                forall|t: int| 0 <= t < j ==> (#[trigger] self.daos@[t]).dao.name@ != name@,
            decreases n - j,
        {
            if self.daos[j].dao.name == *name {
                return Some(j);
            }
            j += 1;
        }
        None
    }

    /// Creates a DAO under a fresh name and returns its identity. Fails
    /// on a name collision, or when the governance configuration asks for
    /// a quorum above one hundred percent; either way nothing changes.
    pub fn create_investment_dao(
        &mut self,
        dao_authority: u64,
        name: String,
        governance_config: Governance,
        denominated_currency: u64,
        now: i64,
    ) -> (r: Result<u64, InvestmentDaoError>)
        requires
            old(self).wf(),
            name@.len() <= 20,
        ensures
            final(self).wf(),
            r is Err ==> *final(self) == *old(self),
            r is Ok <==> !old(self).contains_name(name@)
                && governance_config.voting_quorum <= 100,
            old(self).contains_name(name@) ==> errs(
                r,
                InvestmentDaoError::RecordAlreadyExists,
            ),
            !old(self).contains_name(name@) && governance_config.voting_quorum > 100 ==> errs(
                r,
                InvestmentDaoError::InvalidGovernanceConfig,
            ),
            r matches Ok(ix) ==> {
                &&& ix == old(self).daos@.len()
                &&& final(self).daos@.len() == old(self).daos@.len() + 1
                &&& forall|i: int| 0 <= i < old(self).daos@.len()
                    ==> final(self).daos@[i] == old(self).daos@[i]
                &&& final(self).daos@[ix as int].address == ix
                &&& final(self).daos@[ix as int].dao.name == name
                &&& final(self).daos@[ix as int].dao.authority == dao_authority
                &&& final(self).daos@[ix as int].dao.governance_config == governance_config
                &&& final(self).daos@[ix as int].dao.total_deposited == 0
                &&& final(self).daos@[ix as int].treasury == 0
                &&& final(self).daos@[ix as int].investor_map().dom().contains(dao_authority)
            },
    {
        if self.find_dao_by_name(&name).is_some() {
            return Err(InvestmentDaoError::RecordAlreadyExists);
        }
        let address = self.daos.len() as u64;
        match DaoState::create_investment_dao(
            address,
            dao_authority,
            name,
            governance_config,
            denominated_currency,
            now,
        ) {
            Err(e) => Err(e),
            Ok(dao_state) => {
                let ghost pre = self.daos@;
                self.daos.push(dao_state);
                proof {
                    assert forall|i: int, j: int|
                        0 <= i < self.daos@.len() && 0 <= j < self.daos@.len() && i != j
                        implies (#[trigger] self.daos@[i]).dao.name@
                            != (#[trigger] self.daos@[j]).dao.name@ by {
                        if i < pre.len() && j < pre.len() {
                            assert(pre[i].dao.name@ != pre[j].dao.name@);
                        }
                    }
                }
                Ok(address)
            },
        }
    }
}

} // verus!
