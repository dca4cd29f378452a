use vstd::prelude::*;
use crate::account::ValidAccountId;
use crate::metadata::FungibleTokenMetadata;
use crate::storage::{measured_footprint, StorageProbe};
use crate::store::BalanceStore;
use crate::supply::{
    balance_of, lemma_balance_at_most_total, lemma_total_empty, lemma_total_insert,
    lemma_two_balances_at_most_total, total_balance, Balances,
};

verus! {

/// Why the ledger turned an operation down. A rejected operation changes nothing.
#[derive(Clone, Copy, Debug, PartialEq, Eq, Structural)]
pub enum LedgerError {
    /// The ledger was set up before; it is set up only once.
    AlreadyInitialized,
    /// The storage usage read after the placeholder entry was written is below
    /// the one read before.
    StorageUsageShrank,
    /// The genesis supply cannot be split into two equal halves.
    UnevenGenesisSupply,
    /// The service account of the genesis is the owner itself.
    ServiceAccountIsOwner,
    /// The caller of an issuance is not the owner.
    NotOwner,
    /// The issuance would take the total supply past the largest balance.
    SupplyOverflow,
    /// The owner has no entry to credit the issuance to.
    OwnerHasNoBalance,
    /// The sender holds less than the amount to be moved.
    InsufficientBalance,
}

/// How the first supply is handed out when the ledger is set up: the owner and
/// the service account get one half of `total_supply` each.
#[derive(Debug)]
pub struct Genesis {
    pub total_supply: u128,
    pub service_account_id: ValidAccountId,
}

/// The ledger as a mathematical value: who owns it, what each account holds,
/// and how much is in circulation.
pub struct Ledger {
    pub owner: Seq<char>,
    pub balances: Balances,
    pub total_supply: u128,
}

impl Ledger {
    /// The total supply is the sum of all balances.
    pub open spec fn conserved(self) -> bool {
        &&& self.balances.dom().finite()
        &&& self.total_supply == total_balance(self.balances)
    }

    /// The ledger right after set-up: the owner and the service account hold one
    /// half of the genesis supply each, and nobody else holds anything.
    pub open spec fn genesis(owner: Seq<char>, service: Seq<char>, total_supply: u128) -> Ledger {
        let half = total_supply / 2;
        Ledger {
            owner,
            balances: Map::<Seq<char>, u128>::empty().insert(owner, half).insert(service, half),
            total_supply,
        }
    }

    /// Why an issuance of `amount` asked for by `caller` is turned down, if it is.
    pub open spec fn mint_refusal(self, caller: Seq<char>, amount: u128) -> Option<LedgerError> {
        if caller != self.owner {
            Some(LedgerError::NotOwner)
        } else if self.total_supply + amount > u128::MAX {
            Some(LedgerError::SupplyOverflow)
        } else if !self.balances.contains_key(self.owner) {
            Some(LedgerError::OwnerHasNoBalance)
        } else {
            None
        }
    }

    /// The ledger after an issuance of `amount` to the owner.
    pub open spec fn minted(self, amount: u128) -> Ledger {
        Ledger {
            owner: self.owner,
            balances: self.balances.insert(
                self.owner,
                (balance_of(self.balances, self.owner) + amount) as u128,
            ),
            total_supply: (self.total_supply + amount) as u128,
        }
    }

    /// Why moving `amount` out of `sender` is turned down, if it is.
    pub open spec fn transfer_refusal(self, sender: Seq<char>, amount: u128) -> Option<
        LedgerError,
    > {
        if balance_of(self.balances, sender) < amount {
            Some(LedgerError::InsufficientBalance)
        } else {
            None
        }
    }

    /// The ledger after `amount` was taken from `sender` and then given to `receiver`.
    pub open spec fn transferred(self, sender: Seq<char>, receiver: Seq<char>, amount: u128) -> Ledger {
        let debited = self.balances.insert(
            sender,
            (balance_of(self.balances, sender) - amount) as u128,
        );
        Ledger {
            owner: self.owner,
            balances: debited.insert(receiver, (balance_of(debited, receiver) + amount) as u128),
            total_supply: self.total_supply,
        }
    }
}

/// Why a set-up is turned down, if it is.
pub open spec fn init_refusal(
    state_exists: bool,
    owner: Seq<char>,
    genesis: Genesis,
    probe: StorageProbe,
) -> Option<LedgerError> {
    if state_exists {
        Some(LedgerError::AlreadyInitialized)
    } else if measured_footprint(probe) is None {
        Some(LedgerError::StorageUsageShrank)
    } else if genesis.total_supply % 2 != 0 {
        Some(LedgerError::UnevenGenesisSupply)
    } else if genesis.service_account_id@ == owner {
        Some(LedgerError::ServiceAccountIsOwner)
    } else {
        None
    }
}

/// The state of the token contract.
#[derive(Debug)]
pub struct Contract {
    /// The one account that may issue new supply. It never changes.
    pub owner_id: ValidAccountId,
    /// What each account holds.
    pub accounts: BalanceStore,
    /// The supply in circulation.
    pub total_supply: u128,
    /// The storage that one account's entry takes, in bytes, as measured at set-up.
    pub account_storage_usage: u64,
    /// The descriptive fields of the token.
    pub ft_metadata: FungibleTokenMetadata,
}

impl View for Contract {
    type V = Ledger;

    open spec fn view(&self) -> Ledger {
        Ledger {
            owner: self.owner_id@,
            balances: self.accounts@,
            total_supply: self.total_supply,
        }
    }
}

impl Contract {
    /// The contract is sound: its store is well formed and its total supply is
    /// the sum of all balances.
    pub open spec fn wf(&self) -> bool {
        &&& self.accounts.well_formed()
        &&& self@.conserved()
    }

    /// Tells whether the contract is sound, by adding up all balances.
    pub fn is_sound(&self) -> (sound: bool)
        ensures
            sound == self.wf(),
    {
        proof {
            use_type_invariant(&self.accounts);
            self.accounts.lemma_finite();
        }
        match self.accounts.total() {
            Some(sum) => sum == self.total_supply,
            None => false,
        }
    }

    /// Sets the ledger up.
    ///
    /// `state_exists` says whether a ledger was set up before, and `probe` holds
    /// the storage usage around the write of the placeholder entry. The set-up
    /// is turned down as [`init_refusal`] says. Otherwise the owner and the
    /// service account hold one half of the genesis supply each, the total
    /// supply is the genesis supply, and the measured cost of one entry and the
    /// metadata are recorded.
    pub fn new(
        state_exists: bool,
        owner_id: ValidAccountId,
        genesis: Genesis,
        ft_metadata: FungibleTokenMetadata,
        probe: StorageProbe,
    ) -> (r: Result<Contract, LedgerError>)
        ensures
            match r {
                Ok(contract) => {
                    &&& init_refusal(state_exists, owner_id@, genesis, probe) is None
                    &&& contract.wf()
                    &&& contract@ == Ledger::genesis(
                        owner_id@,
                        genesis.service_account_id@,
                        genesis.total_supply,
                    )
                    &&& Some(contract.account_storage_usage) == measured_footprint(probe)
                    &&& contract.ft_metadata == ft_metadata
                },
                Err(e) => init_refusal(state_exists, owner_id@, genesis, probe) == Some(e),
            },
    {
        if state_exists {
            return Err(LedgerError::AlreadyInitialized);
        }
        let account_storage_usage = match probe.footprint() {
            Some(bytes) => bytes,
            None => {
                return Err(LedgerError::StorageUsageShrank);
            },
        };
        if genesis.total_supply % 2 != 0 {
            return Err(LedgerError::UnevenGenesisSupply);
        }
        if genesis.service_account_id.same_as(&owner_id) {
            return Err(LedgerError::ServiceAccountIsOwner);
        }
        let half = genesis.total_supply / 2;
        let mut accounts = BalanceStore::new();
        accounts.set(&owner_id, half);
        accounts.set(&genesis.service_account_id, half);
        proof {
            use_type_invariant(&accounts);
            lemma_genesis_conserved(owner_id@, genesis.service_account_id@, genesis.total_supply);
        }
        Ok(
            Contract {
                owner_id,
                accounts,
                total_supply: genesis.total_supply,
                account_storage_usage,
                ft_metadata,
            },
        )
    }

    /// Issues `amount` new units to the owner, on behalf of `caller`.
    ///
    /// Only the owner may issue. The issuance is turned down as
    /// [`Ledger::mint_refusal`] says, and then nothing changes. Otherwise the
    /// owner's balance and the total supply both grow by `amount`.
    pub fn mint(&mut self, caller: &str, amount: u128) -> (r: Result<(), LedgerError>)
        requires
            old(self).wf(),
        ensures
            final(self).wf(),
            match r {
                Ok(()) => {
                    &&& old(self)@.mint_refusal(caller@, amount) is None
                    &&& final(self)@ == old(self)@.minted(amount)
                    &&& final(self).account_storage_usage == old(self).account_storage_usage
                    &&& final(self).ft_metadata == old(self).ft_metadata
                },
                Err(e) => {
                    &&& old(self)@.mint_refusal(caller@, amount) == Some(e)
                    &&& *final(self) == *old(self)
                },
            },
    {
        if !self.owner_id.is_text(caller) {
            return Err(LedgerError::NotOwner);
        }
        let total_supply = match self.total_supply.checked_add(amount) {
            Some(sum) => sum,
            None => {
                return Err(LedgerError::SupplyOverflow);
            },
        };
        let balance = match self.accounts.lookup(&self.owner_id) {
            Some(balance) => balance,
            None => {
                return Err(LedgerError::OwnerHasNoBalance);
            },
        };
        proof {
            self.accounts.lemma_finite();
            lemma_mint_conserves(self@, caller@, amount);
        }
        self.total_supply = total_supply;
        self.accounts.set(&self.owner_id, balance + amount);
        proof {
            use_type_invariant(&self.accounts);
        }
        Ok(())
    }

    /// Moves `amount` from `sender` to `receiver`.
    ///
    /// The move is turned down, and nothing changes, where `sender` holds less
    /// than `amount`. Otherwise `sender` is debited and `receiver` is then
    /// credited by `amount`; the total supply stays as it is.
    pub fn transfer(
        &mut self,
        sender: &ValidAccountId,
        receiver: &ValidAccountId,
        amount: u128,
    ) -> (r: Result<(), LedgerError>)
        requires
            old(self).wf(),
        ensures
            final(self).wf(),
            match r {
                Ok(()) => {
                    &&& old(self)@.transfer_refusal(sender@, amount) is None
                    &&& final(self)@ == old(self)@.transferred(sender@, receiver@, amount)
                    &&& final(self).account_storage_usage == old(self).account_storage_usage
                    &&& final(self).ft_metadata == old(self).ft_metadata
                },
                Err(e) => {
                    &&& old(self)@.transfer_refusal(sender@, amount) == Some(e)
                    &&& *final(self) == *old(self)
                },
            },
    {
        let sender_balance = self.accounts.get(sender);
        if sender_balance < amount {
            return Err(LedgerError::InsufficientBalance);
        }
        proof {
            self.accounts.lemma_finite();
            lemma_transfer_conserves(self@, sender@, receiver@, amount);
        }
        self.accounts.set(sender, sender_balance - amount);
        let receiver_balance = self.accounts.get(receiver);
        self.accounts.set(receiver, receiver_balance + amount);
        proof {
            use_type_invariant(&self.accounts);
        }
        Ok(())
    }
}

/// Supply conservation at set-up: in the ledger of a genesis with an even supply
/// and a service account other than the owner, the total supply is the sum of
/// all balances.
pub proof fn lemma_genesis_conserved(owner: Seq<char>, service: Seq<char>, total_supply: u128)
    requires
        total_supply % 2 == 0,
        owner != service,
    ensures
        Ledger::genesis(owner, service, total_supply).conserved(),
{
    let half = (total_supply / 2) as u128;
    let empty = Map::<Seq<char>, u128>::empty();
    lemma_total_empty();
    lemma_total_insert(empty, owner, half);
    lemma_total_insert(empty.insert(owner, half), service, half);
}

/// An issuance that is not turned down keeps the total supply equal to the sum
/// of all balances, and the owner's new balance fits.
pub proof fn lemma_mint_conserves(ledger: Ledger, caller: Seq<char>, amount: u128)
    requires
        ledger.conserved(),
        ledger.mint_refusal(caller, amount) is None,
    ensures
        ledger.minted(amount).conserved(),
        balance_of(ledger.balances, ledger.owner) + amount <= u128::MAX,
{
    lemma_balance_at_most_total(ledger.balances, ledger.owner);
    lemma_total_insert(
        ledger.balances,
        ledger.owner,
        (balance_of(ledger.balances, ledger.owner) + amount) as u128,
    );
}

/// A move that is not turned down keeps the total supply equal to the sum of
/// all balances, and the receiver's new balance fits.
pub proof fn lemma_transfer_conserves(
    ledger: Ledger,
    sender: Seq<char>,
    receiver: Seq<char>,
    amount: u128,
)
    requires
        ledger.conserved(),
        ledger.transfer_refusal(sender, amount) is None,
    ensures
        ledger.transferred(sender, receiver, amount).conserved(),
        balance_of(
            ledger.balances.insert(sender, (balance_of(ledger.balances, sender) - amount) as u128),
            receiver,
        ) + amount <= u128::MAX,
{
    let held = balance_of(ledger.balances, sender);
    let debited = ledger.balances.insert(sender, (held - amount) as u128);
    lemma_total_insert(ledger.balances, sender, (held - amount) as u128);
    if sender != receiver {
        lemma_two_balances_at_most_total(ledger.balances, sender, receiver);
    }
    lemma_total_insert(debited, receiver, (balance_of(debited, receiver) + amount) as u128);
}

} // verus!
