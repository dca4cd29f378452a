use vstd::prelude::*;
use crate::contract::{
    lemma_mint_conserves, lemma_transfer_conserves, Contract, Ledger, LedgerError,
};
use crate::supply::balance_of;

verus! {

/// A request to the ledger.
pub enum Operation {
    /// `caller` asks for `amount` new units for the owner.
    Mint { caller: Seq<char>, amount: u128 },
    /// `amount` is to go from `sender` to `receiver`.
    Transfer { sender: Seq<char>, receiver: Seq<char>, amount: u128 },
}

impl Ledger {
    /// The ledger after one request; a request that is turned down leaves it as it is.
    pub open spec fn after(self, operation: Operation) -> Ledger {
        match operation {
            Operation::Mint { caller, amount } => if self.mint_refusal(caller, amount) is None {
                self.minted(amount)
            } else {
                self
            },
            Operation::Transfer { sender, receiver, amount } => if self.transfer_refusal(
                sender,
                amount,
            ) is None {
                self.transferred(sender, receiver, amount)
            } else {
                self
            },
        }
    }

    /// The ledger after a run of requests, the first one first.
    pub open spec fn after_all(self, operations: Seq<Operation>) -> Ledger
        decreases operations.len(),
    {
        if operations.len() == 0 {
            self
        } else {
            self.after(operations.first()).after_all(operations.drop_first())
        }
    }
}

/// Supply conservation: whatever issuances and transfers are asked for, in
/// whatever order, the total supply stays the sum of all balances.
pub proof fn lemma_supply_conserved(ledger: Ledger, operations: Seq<Operation>)
    requires
        ledger.conserved(),
    ensures
        ledger.after_all(operations).conserved(),
    decreases operations.len(),
{
    if operations.len() > 0 {
        match operations.first() {
            Operation::Mint { caller, amount } => {
                if ledger.mint_refusal(caller, amount) is None {
                    lemma_mint_conserves(ledger, caller, amount);
                }
            },
            Operation::Transfer { sender, receiver, amount } => {
                if ledger.transfer_refusal(sender, amount) is None {
                    lemma_transfer_conserves(ledger, sender, receiver, amount);
                }
            },
        }
        lemma_supply_conserved(ledger.after(operations.first()), operations.drop_first());
    }
}

/// The owner stays the same, whatever is asked of the ledger.
pub proof fn lemma_owner_fixed(ledger: Ledger, operations: Seq<Operation>)
    ensures
        ledger.after_all(operations).owner == ledger.owner,
    decreases operations.len(),
{
    if operations.len() > 0 {
        lemma_owner_fixed(ledger.after(operations.first()), operations.drop_first());
    }
}

/// No balance is ever negative: an issuance adds exactly the amount to what the
/// owner held, and a transfer takes exactly the amount from a sender who held
/// at least that much and adds it to what the receiver held.
pub proof fn lemma_balances_exact(ledger: Ledger, operation: Operation, account: Seq<char>)
    requires
        ledger.conserved(),
    ensures
        balance_of(ledger.after(operation).balances, account) >= 0,
        match operation {
            Operation::Mint { caller, amount } => balance_of(
                ledger.after(operation).balances,
                account,
            ) == balance_of(ledger.balances, account) + if ledger.mint_refusal(caller, amount)
                is None && account == ledger.owner {
                amount as int
            } else {
                0
            },
            Operation::Transfer { sender, receiver, amount } => balance_of(
                ledger.after(operation).balances,
                account,
            ) == balance_of(ledger.balances, account) - (if ledger.transfer_refusal(
                sender,
                amount,
            ) is None && account == sender {
                amount as int
            } else {
                0
            }) + (if ledger.transfer_refusal(sender, amount) is None && account == receiver {
                amount as int
            } else {
                0
            }),
        },
{
    match operation {
        Operation::Mint { caller, amount } => {
            if ledger.mint_refusal(caller, amount) is None {
                lemma_mint_conserves(ledger, caller, amount);
            }
        },
        Operation::Transfer { sender, receiver, amount } => {
            if ledger.transfer_refusal(sender, amount) is None {
                lemma_transfer_conserves(ledger, sender, receiver, amount);
            }
        },
    }
}

/// Authorization: an issuance asked for by anyone but the owner is turned down
/// as [`LedgerError::NotOwner`] and leaves the ledger as it is.
pub proof fn lemma_mint_needs_owner(ledger: Ledger, caller: Seq<char>, amount: u128)
    requires
        caller != ledger.owner,
    ensures
        ledger.mint_refusal(caller, amount) == Some(LedgerError::NotOwner),
        ledger.after(Operation::Mint { caller, amount }) == ledger,
{
}

/// A sound contract has a ledger whose total supply is the sum of all balances,
/// and only identifiers of the grammar have an entry in it.
pub proof fn lemma_contract_sound(contract: Contract)
    requires
        contract.wf(),
    ensures
        contract@.conserved(),
        forall|account: Seq<char>| #[trigger]
            contract@.balances.contains_key(account) ==> crate::account::is_account_id(
                vstd::utf8::encode_utf8(account),
            ),
{
    contract.accounts.lemma_accounts_valid();
}

} // verus!
