use vstd::prelude::*;

verus! {

/// The balances of a ledger: each account that has an entry, with what it holds.
pub type Balances = Map<Seq<char>, u128>;

/// What `account` holds according to `balances`: its entry, or zero without one.
pub open spec fn balance_of(balances: Balances, account: Seq<char>) -> u128 {
    if balances.contains_key(account) {
        balances[account]
    } else {
        0
    }
}

/// The sum of all balances of a finite ledger.
pub open spec fn total_balance(balances: Balances) -> nat
    decreases balances.dom().len(),
    when balances.dom().finite()
{
    if balances.dom().len() == 0 {
        0
    } else {
        let account = balances.dom().choose();
        balances[account] as nat + total_balance(balances.remove(account))
    }
}

/// A ledger without entries sums to zero.
pub proof fn lemma_total_empty()
    ensures
        total_balance(Map::<Seq<char>, u128>::empty()) == 0,
{
}

/// The sum splits into any one entry and the sum of the others.
pub proof fn lemma_total_split(balances: Balances, account: Seq<char>)
    requires
        balances.dom().finite(),
        balances.contains_key(account),
    ensures
        total_balance(balances) == balances[account] + total_balance(balances.remove(account)),
    decreases balances.dom().len(),
{
    let chosen = balances.dom().choose();
    if chosen != account {
        let rest = balances.remove(chosen);
        lemma_total_split(rest, account);
        lemma_total_split(balances.remove(account), chosen);
        assert(rest.remove(account) =~= balances.remove(account).remove(chosen));
    }
}

/// Writing an entry changes the sum by the difference between the new balance
/// and what the account held before.
pub proof fn lemma_total_insert(balances: Balances, account: Seq<char>, balance: u128)
    requires
        balances.dom().finite(),
    ensures
        total_balance(balances.insert(account, balance)) == total_balance(balances) - balance_of(
            balances,
            account,
        ) + balance,
{
    let after = balances.insert(account, balance);
    lemma_total_split(after, account);
    assert(after.remove(account) =~= balances.remove(account));
    if balances.contains_key(account) {
        lemma_total_split(balances, account);
    } else {
        assert(balances.remove(account) =~= balances);
    }
}

/// Deleting an entry lowers the sum by what the account held.
pub proof fn lemma_total_remove(balances: Balances, account: Seq<char>)
    requires
        balances.dom().finite(),
    ensures
        total_balance(balances.remove(account)) == total_balance(balances) - balance_of(
            balances,
            account,
        ),
{
    if balances.contains_key(account) {
        lemma_total_split(balances, account);
    } else {
        assert(balances.remove(account) =~= balances);
    }
}

/// No account holds more than the sum of all balances.
pub proof fn lemma_balance_at_most_total(balances: Balances, account: Seq<char>)
    requires
        balances.dom().finite(),
    ensures
        balance_of(balances, account) <= total_balance(balances),
{
    if balances.contains_key(account) {
        lemma_total_split(balances, account);
    }
}

/// Two different accounts together hold no more than the sum of all balances.
pub proof fn lemma_two_balances_at_most_total(balances: Balances, first: Seq<char>, second: Seq<char>)
    requires
        balances.dom().finite(),
        first != second,
    ensures
        balance_of(balances, first) + balance_of(balances, second) <= total_balance(balances),
{
    if balances.contains_key(first) {
        lemma_total_split(balances, first);
        lemma_balance_at_most_total(balances.remove(first), second);
    } else {
        lemma_balance_at_most_total(balances, second);
    }
}

} // verus!
