use vstd::prelude::*;
use vstd::utf8::encode_utf8;
use crate::account::{is_account_id, ValidAccountId};
use crate::supply::{balance_of, lemma_total_insert, total_balance, Balances};

verus! {

/// One row of the store: an account and what it holds.
#[derive(Debug)]
struct Entry {
    account: ValidAccountId,
    balance: u128,
}

/// The map that a sequence of rows stands for; a later row wins over an earlier one.
spec fn rows_map(rows: Seq<Entry>) -> Balances
    decreases rows.len(),
{
    if rows.len() == 0 {
        Map::empty()
    } else {
        rows_map(rows.drop_last()).insert(rows.last().account@, rows.last().balance)
    }
}

/// No account has two rows.
spec fn rows_distinct(rows: Seq<Entry>) -> bool {
    forall|i: int, j: int|
        0 <= i < rows.len() && 0 <= j < rows.len() && i != j ==> (#[trigger] rows[i]).account@
            != (#[trigger] rows[j]).account@
}

/// The map has exactly the accounts of the rows and is finite; where no account
/// has two rows, each row's balance is the map's.
proof fn lemma_rows_map(rows: Seq<Entry>)
    ensures
        rows_map(rows).dom().finite(),
        forall|account: Seq<char>| #[trigger]
            rows_map(rows).contains_key(account) <==> exists|i: int|
                0 <= i < rows.len() && (#[trigger] rows[i]).account@ == account,
        rows_distinct(rows) ==> forall|i: int|
            0 <= i < rows.len() ==> rows_map(rows)[(#[trigger] rows[i]).account@]
                == rows[i].balance,
    decreases rows.len(),
{
    if rows.len() > 0 {
        let front = rows.drop_last();
        lemma_rows_map(front);
        assert forall|account: Seq<char>| #[trigger]
            rows_map(rows).contains_key(account) implies exists|i: int|
            0 <= i < rows.len() && (#[trigger] rows[i]).account@ == account by {
            if account == rows.last().account@ {
                assert(rows[rows.len() - 1].account@ == account);
            } else {
                let i = choose|i: int| 0 <= i < front.len() && (#[trigger] front[i]).account@ == account;
                assert(rows[i].account@ == account);
            }
        }
        assert forall|account: Seq<char>|
            (exists|i: int|
                0 <= i < rows.len() && (#[trigger] rows[i]).account@ == account) implies #[trigger]
            rows_map(rows).contains_key(account) by {
            let i = choose|i: int| 0 <= i < rows.len() && (#[trigger] rows[i]).account@ == account;
            if i < front.len() {
                assert(front[i].account@ == account);
            }
        }
        if rows_distinct(rows) {
            assert(rows_distinct(front)) by {
                assert forall|i: int, j: int|
                    0 <= i < front.len() && 0 <= j < front.len() && i != j implies (
                #[trigger] front[i]).account@ != (#[trigger] front[j]).account@ by {
                    assert(rows[i].account@ != rows[j].account@);
                }
            }
            assert forall|i: int| 0 <= i < rows.len() implies rows_map(rows)[(
            #[trigger] rows[i]).account@] == rows[i].balance by {
                if i < front.len() {
                    assert(front[i].account@ == rows[i].account@);
                    assert(rows[i].account@ != rows[rows.len() - 1].account@);
                }
            }
        }
    }
}

/// Replacing the row of an account by another row of the same account writes
/// that account's entry.
proof fn lemma_rows_replace(rows: Seq<Entry>, at: int, row: Entry)
    requires
        rows_distinct(rows),
        0 <= at < rows.len(),
        rows[at].account@ == row.account@,
    ensures
        rows_distinct(rows.update(at, row)),
        rows_map(rows.update(at, row)) == rows_map(rows).insert(row.account@, row.balance),
{
    let after = rows.update(at, row);
    assert(rows_distinct(after)) by {
        assert forall|i: int, j: int|
            0 <= i < after.len() && 0 <= j < after.len() && i != j implies (
        #[trigger] after[i]).account@ != (#[trigger] after[j]).account@ by {
            assert(rows[i].account@ != rows[j].account@);
        }
    }
    lemma_rows_map(rows);
    lemma_rows_map(after);
    let want = rows_map(rows).insert(row.account@, row.balance);
    assert forall|account: Seq<char>| rows_map(after).contains_key(account) implies #[trigger]
    want.contains_key(account) && want[account] == rows_map(after)[account] by {
        let i = choose|i: int| 0 <= i < after.len() && (#[trigger] after[i]).account@ == account;
        assert(rows[i].account@ == account);
    }
    assert forall|account: Seq<char>| #[trigger]
        want.contains_key(account) implies rows_map(after).contains_key(account) by {
        if account == row.account@ {
            assert(after[at].account@ == account);
        } else {
            let i = choose|i: int| 0 <= i < rows.len() && (#[trigger] rows[i]).account@ == account;
            assert(after[i].account@ == account);
        }
    }
    assert(rows_map(after) =~= want);
}

/// Adding a row for an account that has none writes that account's entry.
proof fn lemma_rows_append(rows: Seq<Entry>, row: Entry)
    requires
        rows_distinct(rows),
        forall|i: int| 0 <= i < rows.len() ==> (#[trigger] rows[i]).account@ != row.account@,
    ensures
        rows_distinct(rows.push(row)),
        rows_map(rows.push(row)) == rows_map(rows).insert(row.account@, row.balance),
{
    let after = rows.push(row);
    assert(after.drop_last() =~= rows);
    assert forall|i: int, j: int|
        0 <= i < after.len() && 0 <= j < after.len() && i != j implies (
    #[trigger] after[i]).account@ != (#[trigger] after[j]).account@ by {
        if i < rows.len() && j < rows.len() {
            assert(rows[i].account@ != rows[j].account@);
        } else if i < rows.len() {
            assert(rows[i].account@ != row.account@);
        } else {
            assert(rows[j].account@ != row.account@);
        }
    }
}

/// Taking a row out deletes that account's entry.
proof fn lemma_rows_take_out(rows: Seq<Entry>, at: int)
    requires
        rows_distinct(rows),
        0 <= at < rows.len(),
    ensures
        rows_distinct(rows.remove(at)),
        rows_map(rows.remove(at)) == rows_map(rows).remove(rows[at].account@),
{
    let after = rows.remove(at);
    assert forall|i: int| 0 <= i < after.len() implies #[trigger] after[i] == rows[if i < at {
        i
    } else {
        i + 1
    }] by {}
    assert(rows_distinct(after)) by {
        assert forall|i: int, j: int|
            0 <= i < after.len() && 0 <= j < after.len() && i != j implies (
        #[trigger] after[i]).account@ != (#[trigger] after[j]).account@ by {
            let from_i = if i < at { i } else { i + 1 };
            let from_j = if j < at { j } else { j + 1 };
            assert(rows[from_i].account@ != rows[from_j].account@);
        }
    }
    lemma_rows_map(rows);
    lemma_rows_map(after);
    let want = rows_map(rows).remove(rows[at].account@);
    assert forall|account: Seq<char>| rows_map(after).contains_key(account) implies #[trigger]
    want.contains_key(account) && want[account] == rows_map(after)[account] by {
        let i = choose|i: int| 0 <= i < after.len() && (#[trigger] after[i]).account@ == account;
        let from = if i < at { i } else { i + 1 };
        assert(rows[from].account@ == account);
        assert(rows[from].account@ != rows[at].account@);
    }
    assert forall|account: Seq<char>| #[trigger]
        want.contains_key(account) implies rows_map(after).contains_key(account) by {
        let i = choose|i: int| 0 <= i < rows.len() && (#[trigger] rows[i]).account@ == account;
        let to = if i < at { i } else { i - 1 };
        assert(after[to].account@ == account);
    }
    assert(rows_map(after) =~= want);
}

/// Where no account has two rows, the sum of the map's balances is the sum of
/// the map without the last row, plus the last row's balance.
proof fn lemma_rows_total(rows: Seq<Entry>)
    requires
        rows_distinct(rows),
        rows.len() > 0,
    ensures
        total_balance(rows_map(rows)) == total_balance(rows_map(rows.drop_last()))
            + rows.last().balance,
{
    let front = rows.drop_last();
    lemma_rows_map(front);
    assert(!rows_map(front).contains_key(rows.last().account@)) by {
        if rows_map(front).contains_key(rows.last().account@) {
            let i = choose|i: int|
                0 <= i < front.len() && (#[trigger] front[i]).account@ == rows.last().account@;
            assert(rows[i].account@ == rows[rows.len() - 1].account@);
        }
    }
    lemma_total_insert(rows_map(front), rows.last().account@, rows.last().balance);
}

/// The sum over the first rows is at most the sum over all rows.
proof fn lemma_total_prefix(rows: Seq<Entry>, first: int)
    requires
        rows_distinct(rows),
        0 <= first <= rows.len(),
    ensures
        total_balance(rows_map(rows.take(first))) <= total_balance(rows_map(rows)),
    decreases rows.len() - first,
{
    if first < rows.len() {
        let upto = rows.take(first + 1);
        assert(upto.drop_last() =~= rows.take(first));
        assert(rows_distinct(upto)) by {
            assert forall|a: int, b: int|
                0 <= a < upto.len() && 0 <= b < upto.len() && a != b implies (
            #[trigger] upto[a]).account@ != (#[trigger] upto[b]).account@ by {
                assert(rows[a].account@ != rows[b].account@);
            }
        }
        lemma_rows_total(upto);
        lemma_total_prefix(rows, first + 1);
    } else {
        assert(rows.take(first) =~= rows);
    }
}

/// The balance store: which account holds how much.
///
/// Its view is a finite map from account identifier to balance. An account
/// without an entry holds nothing.
#[derive(Debug)]
pub struct BalanceStore {
    rows: Vec<Entry>,
}

impl View for BalanceStore {
    type V = Balances;

    closed spec fn view(&self) -> Balances {
        rows_map(self.rows@)
    }
}

impl BalanceStore {
    /// No account has two rows, and every row is that of a valid identifier.
    /// This holds of every store.
    #[verifier::type_invariant]
    pub closed spec fn well_formed(self) -> bool {
        &&& rows_distinct(self.rows@)
        &&& forall|i: int| 0 <= i < self.rows@.len() ==> (#[trigger] self.rows@[i]).account.well_formed()
    }

    /// The store has finitely many entries.
    pub proof fn lemma_finite(self)
        ensures
            self@.dom().finite(),
    {
        lemma_rows_map(self.rows@);
    }

    /// Only identifiers of the grammar have an entry.
    pub proof fn lemma_accounts_valid(self)
        requires
            self.well_formed(),
        ensures
            forall|account: Seq<char>| #[trigger]
                self@.contains_key(account) ==> is_account_id(encode_utf8(account)),
    {
        lemma_rows_map(self.rows@);
        assert forall|account: Seq<char>| #[trigger] self@.contains_key(account) implies is_account_id(
            encode_utf8(account),
        ) by {
            let i = choose|i: int|
                0 <= i < self.rows@.len() && (#[trigger] self.rows@[i]).account@ == account;
            self.rows@[i].account.lemma_well_formed();
        }
    }

    /// A store without entries.
    pub fn new() -> (store: BalanceStore)
        ensures
            store@ == Map::<Seq<char>, u128>::empty(),
    {
        BalanceStore { rows: Vec::new() }
    }

    /// The row of `account`, if it has one.
    fn position(&self, account: &ValidAccountId) -> (at: Option<usize>)
        ensures
            at matches Some(i) ==> i < self.rows@.len() && self.rows@[i as int].account@
                == account@,
            at is None ==> forall|i: int|
                0 <= i < self.rows@.len() ==> (#[trigger] self.rows@[i]).account@ != account@,
    {
        let mut i: usize = 0;
        while i < self.rows.len()
            invariant
                i <= self.rows@.len(),
                forall|j: int| 0 <= j < i ==> (#[trigger] self.rows@[j]).account@ != account@,
            decreases self.rows@.len() - i,
        {
            if self.rows[i].account.same_as(account) {
                return Some(i);
            }
            i += 1;
        }
        None
    }

    /// The entry of `account`: its balance, or `None` where it has no entry.
    pub fn lookup(&self, account: &ValidAccountId) -> (entry: Option<u128>)
        ensures
            entry == if self@.contains_key(account@) {
                Some(self@[account@])
            } else {
                None
            },
    {
        proof {
            use_type_invariant(self);
            lemma_rows_map(self.rows@);
        }
        match self.position(account) {
            Some(i) => Some(self.rows[i].balance),
            None => None,
        }
    }

    /// What `account` holds: its entry, or zero where it has none.
    pub fn get(&self, account: &ValidAccountId) -> (balance: u128)
        ensures
            balance == balance_of(self@, account@),
    {
        match self.lookup(account) {
            Some(balance) => balance,
            None => 0,
        }
    }

    /// All entries, each account once, in no particular order.
    pub fn entries(&self) -> (entries: Vec<(ValidAccountId, u128)>)
        ensures
            forall|i: int|
                0 <= i < entries@.len() ==> self@.contains_key((#[trigger] entries@[i]).0@)
                    && self@[entries@[i].0@] == entries@[i].1,
            forall|account: Seq<char>| #[trigger]
                self@.contains_key(account) ==> exists|i: int|
                    0 <= i < entries@.len() && (#[trigger] entries@[i]).0@ == account,
            forall|i: int, j: int|
                0 <= i < entries@.len() && 0 <= j < entries@.len() && i != j ==> (
                #[trigger] entries@[i]).0@ != (#[trigger] entries@[j]).0@,
    {
        proof {
            use_type_invariant(self);
            lemma_rows_map(self.rows@);
        }
        let mut entries: Vec<(ValidAccountId, u128)> = Vec::new();
        let mut i: usize = 0;
        while i < self.rows.len()
            invariant
                i <= self.rows@.len(),
                entries@.len() == i,
                forall|j: int|
                    0 <= j < i ==> (#[trigger] entries@[j]).0@ == self.rows@[j].account@
                        && entries@[j].1 == self.rows@[j].balance,
            decreases self.rows@.len() - i,
        {
            entries.push((self.rows[i].account.clone(), self.rows[i].balance));
            i += 1;
        }
        proof {
            assert forall|account: Seq<char>| #[trigger] self@.contains_key(account) implies exists|
                i: int,
            | 0 <= i < entries@.len() && (#[trigger] entries@[i]).0@ == account by {
                let at = choose|at: int|
                    0 <= at < self.rows@.len() && (#[trigger] self.rows@[at]).account@ == account;
                assert(entries@[at].0@ == account);
            }
            assert forall|i: int, j: int|
                0 <= i < entries@.len() && 0 <= j < entries@.len() && i != j implies (
            #[trigger] entries@[i]).0@ != (#[trigger] entries@[j]).0@ by {
                assert(self.rows@[i].account@ != self.rows@[j].account@);
            }
            assert forall|i: int| 0 <= i < entries@.len() implies self@.contains_key(
                (#[trigger] entries@[i]).0@,
            ) && self@[entries@[i].0@] == entries@[i].1 by {
                assert(self.rows@[i].account@ == entries@[i].0@);
            }
        }
        entries
    }

    /// The sum of all balances, or `None` where it is past the largest balance.
    pub fn total(&self) -> (sum: Option<u128>)
        ensures
            match sum {
                Some(total) => total == total_balance(self@),
                None => total_balance(self@) > u128::MAX,
            },
    {
        proof {
            use_type_invariant(self);
        }
        let mut sum: u128 = 0;
        let mut i: usize = 0;
        while i < self.rows.len()
            invariant
                i <= self.rows@.len(),
                rows_distinct(self.rows@),
                sum == total_balance(rows_map(self.rows@.take(i as int))),
            decreases self.rows@.len() - i,
        {
            proof {
                let upto = self.rows@.take(i + 1);
                assert(upto.drop_last() =~= self.rows@.take(i as int));
                assert(rows_distinct(upto)) by {
                    assert forall|a: int, b: int|
                        0 <= a < upto.len() && 0 <= b < upto.len() && a != b implies (
                    #[trigger] upto[a]).account@ != (#[trigger] upto[b]).account@ by {
                        assert(self.rows@[a].account@ != self.rows@[b].account@);
                    }
                }
                lemma_rows_total(upto);
                lemma_total_prefix(self.rows@, i + 1);
            }
            sum = match sum.checked_add(self.rows[i].balance) {
                Some(next) => next,
                None => {
                    return None;
                },
            };
            i += 1;
        }
        assert(self.rows@.take(i as int) =~= self.rows@);
        Some(sum)
    }

    /// Makes `balance` the entry of `account`, in place of any earlier one.
    pub fn set(&mut self, account: &ValidAccountId, balance: u128)
        ensures
            final(self)@ == old(self)@.insert(account@, balance),
    {
        proof {
            use_type_invariant(&*self);
            use_type_invariant(account);
            lemma_rows_map(self.rows@);
        }
        let at = self.position(account);
        let owned = account.clone();
        proof {
            use_type_invariant(&owned);
        }
        let row = Entry { account: owned, balance };
        // The rows are taken out while they change, so that the store never
        // holds a half-made list.
        let mut rows: Vec<Entry> = Vec::new();
        std::mem::swap(&mut self.rows, &mut rows);
        match at {
            Some(i) => {
                proof {
                    lemma_rows_replace(rows@, i as int, row);
                }
                rows.set(i, row);
            },
            None => {
                proof {
                    lemma_rows_append(rows@, row);
                }
                rows.push(row);
            },
        }
        std::mem::swap(&mut self.rows, &mut rows);
    }

    /// Deletes the entry of `account`, if it has one.
    pub fn remove(&mut self, account: &ValidAccountId)
        ensures
            final(self)@ == old(self)@.remove(account@),
    {
        proof {
            use_type_invariant(&*self);
            lemma_rows_map(self.rows@);
        }
        match self.position(account) {
            Some(i) => {
                let mut rows: Vec<Entry> = Vec::new();
                std::mem::swap(&mut self.rows, &mut rows);
                proof {
                    lemma_rows_take_out(rows@, i as int);
                }
                rows.remove(i);
                std::mem::swap(&mut self.rows, &mut rows);
            },
            None => {
                assert(old(self)@.remove(account@) =~= old(self)@);
            },
        }
    }
}

} // verus!
