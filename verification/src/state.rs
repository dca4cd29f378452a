use vstd::prelude::*;
use crate::account::ValidAccountId;
use crate::contract::{init_refusal, Contract, Genesis, Ledger, LedgerError};
use crate::metadata::FungibleTokenMetadata;
use crate::storage::{measured_footprint, StorageProbe};

verus! {

/// The life of the contract: it starts without a ledger, is set up once, and
/// keeps its ledger from then on.
#[derive(Debug)]
pub enum ContractState {
    /// No ledger has been set up.
    Uninitialized,
    /// The ledger that was set up.
    Initialized(Contract),
}

impl ContractState {
    /// The state holds a sound ledger, or none yet.
    pub open spec fn wf(&self) -> bool {
        self matches ContractState::Initialized(contract) ==> contract.wf()
    }

    /// Sets the ledger up, once.
    ///
    /// Where a ledger has been set up before, the attempt is turned down with
    /// [`LedgerError::AlreadyInitialized`], whatever the arguments, and the
    /// ledger stays as it is. Otherwise the outcome is that of
    /// [`Contract::new`]: a set-up that is turned down leaves the state without
    /// a ledger.
    pub fn initialize(
        &mut self,
        owner_id: ValidAccountId,
        genesis: Genesis,
        ft_metadata: FungibleTokenMetadata,
        probe: StorageProbe,
    ) -> (r: Result<(), LedgerError>)
        ensures
            old(self).wf() ==> final(self).wf(),
            *old(self) is Initialized ==> r == Err::<(), LedgerError>(
                LedgerError::AlreadyInitialized,
            ),
            match r {
                Ok(()) => {
                    &&& *old(self) is Uninitialized
                    &&& init_refusal(false, owner_id@, genesis, probe) is None
                    &&& *final(self) matches ContractState::Initialized(contract)
                    &&& contract.wf()
                    &&& contract@ == Ledger::genesis(
                        owner_id@,
                        genesis.service_account_id@,
                        genesis.total_supply,
                    )
                    &&& Some(contract.account_storage_usage) == measured_footprint(probe)
                    &&& contract.ft_metadata == ft_metadata
                },
                Err(e) => {
                    &&& init_refusal(*old(self) is Initialized, owner_id@, genesis, probe) == Some(e)
                    &&& *final(self) == *old(self)
                },
            },
    {
        let state_exists = match self {
            ContractState::Uninitialized => false,
            ContractState::Initialized(_) => true,
        };
        match Contract::new(state_exists, owner_id, genesis, ft_metadata, probe) {
            Ok(contract) => {
                *self = ContractState::Initialized(contract);
                Ok(())
            },
            Err(e) => Err(e),
        }
    }
}

} // verus!
