//! The ledger's data: the configuration, the running total, the balance
//! entries, and what it means for them to fit together.

use vstd::prelude::*;

verus! {

/// The balance record kept for one identity.
#[derive(Clone, Debug, PartialEq)]
pub struct Token {
    pub balance: u128,
}

/// Who may do what, and how much may ever be minted.
#[derive(Clone, Debug, PartialEq)]
pub struct Config {
    /// The deploying authority; never changes.
    pub admin: String,
    /// While false every mint is refused.
    pub mint_enabled: bool,
    /// The identities that may mint, in the order they were added.
    pub minters: Vec<String>,
    /// Upper bound on the total supply; never changes.
    pub supply_cap: u128,
}

/// One entry of the balance table: an identity and its record.
#[derive(Clone, Debug, PartialEq)]
pub struct Account {
    pub address: String,
    pub token: Token,
}

/// The whole persisted state: the three slots of the store.
#[derive(Clone, Debug, PartialEq)]
pub struct Ledger {
    pub config: Config,
    pub total_supply: u128,
    pub accounts: Vec<Account>,
}

/// The identities of a list of strings, as plain character sequences.
pub open spec fn ids_of(names: Seq<String>) -> Seq<Seq<char>> {
    Seq::new(names.len(), |i: int| names[i]@)
}

/// The sum of the balances of a run of entries.
pub open spec fn balance_sum(accounts: Seq<Account>) -> nat
    decreases accounts.len(),
{
    if accounts.len() == 0 {
        0
    } else {
        balance_sum(accounts.drop_last()) + accounts.last().token.balance as nat
    }
}

/// No two entries are kept for the same identity.
pub open spec fn distinct_addresses(accounts: Seq<Account>) -> bool {
    forall|i: int, j: int|
        0 <= i < accounts.len() && 0 <= j < accounts.len() && i != j
            ==> accounts[i].address@ != accounts[j].address@
}

/// Whether some entry of `accounts` is kept for `who`.
pub open spec fn holds_in(accounts: Seq<Account>, who: Seq<char>) -> bool {
    exists|i: int| 0 <= i < accounts.len() && #[trigger] accounts[i].address@ == who
}

/// The balance that `accounts` records for `who`: that of its entry, zero
/// where it has none.
pub open spec fn balance_in(accounts: Seq<Account>, who: Seq<char>) -> nat {
    if holds_in(accounts, who) {
        let i = choose|i: int| 0 <= i < accounts.len() && #[trigger] accounts[i].address@ == who;
        accounts[i].token.balance as nat
    } else {
        0
    }
}

/// With distinct addresses, the entry at `i` is the one `balance_in` reads.
pub proof fn lemma_balance_at(accounts: Seq<Account>, i: int)
    requires
        distinct_addresses(accounts),
        0 <= i < accounts.len(),
    ensures
        holds_in(accounts, accounts[i].address@),
        balance_in(accounts, accounts[i].address@) == accounts[i].token.balance,
{
}

/// Raising the balance of the entry at `i` by `amount` raises what its
/// identity is owed by `amount` and leaves every other identity as it was.
pub proof fn lemma_credit_existing(before: Seq<Account>, after: Seq<Account>, i: int, amount: nat)
    requires
        distinct_addresses(before),
        0 <= i < before.len(),
        after.len() == before.len(),
        forall|k: int| 0 <= k < before.len() ==> #[trigger] after[k].address@ == before[k].address@,
        forall|k: int|
            0 <= k < before.len() && k != i ==> #[trigger] after[k].token.balance
                == before[k].token.balance,
        after[i].token.balance == before[i].token.balance + amount,
    ensures
        distinct_addresses(after),
        forall|who: Seq<char>| holds_in(after, who) == holds_in(before, who),
        forall|who: Seq<char>| #[trigger]
            balance_in(after, who) == balance_in(before, who) + if who == before[i].address@ {
                amount
            } else {
                0
            },
{
    assert forall|who: Seq<char>| holds_in(after, who) == holds_in(before, who) by {
        if holds_in(after, who) {
            let k = choose|k: int| 0 <= k < after.len() && #[trigger] after[k].address@ == who;
            assert(before[k].address@ == who);
        }
        if holds_in(before, who) {
            let k = choose|k: int| 0 <= k < before.len() && #[trigger] before[k].address@ == who;
            assert(after[k].address@ == who);
        }
    }
    assert forall|who: Seq<char>| #[trigger]
        balance_in(after, who) == balance_in(before, who) + if who == before[i].address@ {
            amount
        } else {
            0
        } by {
        if holds_in(before, who) {
            let k = choose|k: int| 0 <= k < before.len() && #[trigger] before[k].address@ == who;
            assert(after[k].address@ == who);
            lemma_balance_at(before, k);
            lemma_balance_at(after, k);
        } else {
            assert(before[i].address@ != who);
        }
    }
}

/// Appending an entry for an identity that had none gives that identity the
/// entry's balance and leaves every other identity as it was.
pub proof fn lemma_credit_new(before: Seq<Account>, entry: Account)
    requires
        distinct_addresses(before),
        !holds_in(before, entry.address@),
    ensures
        distinct_addresses(before.push(entry)),
        forall|who: Seq<char>|
            holds_in(before.push(entry), who) == (holds_in(before, who) || who == entry.address@),
        forall|who: Seq<char>| #[trigger]
            balance_in(before.push(entry), who) == balance_in(before, who) + if who
                == entry.address@ {
                entry.token.balance as nat
            } else {
                0
            },
{
    let after = before.push(entry);
    assert(after[before.len() as int].address@ == entry.address@);
    assert forall|who: Seq<char>|
        holds_in(after, who) == (holds_in(before, who) || who == entry.address@) by {
        if holds_in(after, who) {
            let k = choose|k: int| 0 <= k < after.len() && #[trigger] after[k].address@ == who;
            if k < before.len() {
                assert(before[k].address@ == who);
            }
        }
        if holds_in(before, who) {
            let k = choose|k: int| 0 <= k < before.len() && #[trigger] before[k].address@ == who;
            assert(after[k].address@ == who);
        }
    }
    assert forall|who: Seq<char>| #[trigger]
        balance_in(after, who) == balance_in(before, who) + if who == entry.address@ {
            entry.token.balance as nat
        } else {
            0
        } by {
        if who == entry.address@ {
            lemma_balance_at(after, before.len() as int);
        } else if holds_in(before, who) {
            let k = choose|k: int| 0 <= k < before.len() && #[trigger] before[k].address@ == who;
            assert(after[k].address@ == who);
            lemma_balance_at(before, k);
            lemma_balance_at(after, k);
        }
    }
}

/// Appending an entry adds its balance to the sum.
pub proof fn lemma_sum_push(accounts: Seq<Account>, entry: Account)
    ensures
        balance_sum(accounts.push(entry)) == balance_sum(accounts) + entry.token.balance,
{
    assert(accounts.push(entry).drop_last() =~= accounts);
}

/// Replacing an entry changes the sum by the difference of the two balances.
pub proof fn lemma_sum_update(accounts: Seq<Account>, i: int, entry: Account)
    requires
        0 <= i < accounts.len(),
    ensures
        balance_sum(accounts.update(i, entry)) + accounts[i].token.balance
            == balance_sum(accounts) + entry.token.balance,
    decreases accounts.len(),
{
    let updated = accounts.update(i, entry);
    if i == accounts.len() - 1 {
        assert(updated.drop_last() =~= accounts.drop_last());
    } else {
        lemma_sum_update(accounts.drop_last(), i, entry);
        assert(updated.drop_last() =~= accounts.drop_last().update(i, entry));
    }
}

/// No single balance is larger than the sum of all of them.
pub proof fn lemma_entry_within_sum(accounts: Seq<Account>, i: int)
    requires
        0 <= i < accounts.len(),
    ensures
        accounts[i].token.balance <= balance_sum(accounts),
    decreases accounts.len(),
{
    if i < accounts.len() - 1 {
        lemma_entry_within_sum(accounts.drop_last(), i);
    }
}

/// Whether no two of `names` are the same identity.
pub fn all_distinct(names: &Vec<String>) -> (ok: bool)
    ensures
        ok == ids_of(names@).no_duplicates(),
{
    let ghost ids = ids_of(names@);
    let mut i: usize = 0;
    while i < names.len()
        invariant
            i <= names@.len(),
            ids == ids_of(names@),
            forall|a: int, b: int| 0 <= a < b < i ==> ids[a] != ids[b],
        decreases names@.len() - i,
    {
        let mut j: usize = 0;
        while j < i
            invariant
                j <= i < names@.len(),
                ids == ids_of(names@),
                forall|a: int| 0 <= a < j ==> ids[a] != ids[i as int],
            decreases i - j,
        {
            if names[j] == names[i] {
                assert(ids[j as int] == ids[i as int]);
                return false;
            }
            j += 1;
        }
        i += 1;
    }
    true
}

impl Config {
    /// The minters as plain character sequences, in list order.
    pub open spec fn minter_ids(&self) -> Seq<Seq<char>> {
        ids_of(self.minters@)
    }

    /// Whether `who` is on the list of minters.
    pub open spec fn is_minter(&self, who: Seq<char>) -> bool {
        self.minter_ids().contains(who)
    }

    /// The list of minters names nobody twice.
    pub open spec fn wf(&self) -> bool {
        self.minter_ids().no_duplicates()
    }

    /// Scans the list of minters for `who`.
    pub fn has_minter(&self, who: &String) -> (found: bool)
        ensures
            found == self.is_minter(who@),
    {
        let mut i: usize = 0;
        while i < self.minters.len()
            invariant
                i <= self.minters@.len(),
                forall|k: int| 0 <= k < i ==> self.minter_ids()[k] != who@,
            decreases self.minters@.len() - i,
        {
            if self.minters[i] == *who {
                assert(self.minter_ids()[i as int] == who@);
                return true;
            }
            i += 1;
        }
        false
    }
}

impl Ledger {
    /// Whether the balance table has an entry for `who`.
    pub open spec fn holds(&self, who: Seq<char>) -> bool {
        holds_in(self.accounts@, who)
    }

    /// What `who` is owed: the balance of its entry, zero without one.
    pub open spec fn balance_of(&self, who: Seq<char>) -> nat {
        balance_in(self.accounts@, who)
    }

    /// The sum of every balance in the table.
    pub open spec fn sum_of_balances(&self) -> nat {
        balance_sum(self.accounts@)
    }

    /// The state is well formed: no minter and no account is listed twice,
    /// the total supply is within the cap, and no balance exceeds the total.
    /// Each of these can be told from the entries at hand, so the part of a
    /// larger table that one operation touches is well formed whenever the
    /// whole table is; that the balances add up to the total is stated apart,
    /// by `consistent`.
    pub open spec fn wf(&self) -> bool {
        &&& self.config.wf()
        &&& distinct_addresses(self.accounts@)
        &&& self.total_supply <= self.config.supply_cap
        &&& forall|i: int|
            0 <= i < self.accounts@.len() ==> #[trigger] self.accounts@[i].token.balance
                <= self.total_supply
    }

    /// The total supply is exactly the sum of all balances.
    pub open spec fn consistent(&self) -> bool {
        self.sum_of_balances() == self.total_supply
    }

    /// Tests whether the state is well formed.
    pub fn check(&self) -> (ok: bool)
        ensures
            ok == self.wf(),
    {
        if !all_distinct(&self.config.minters) || self.total_supply > self.config.supply_cap {
            return false;
        }
        let mut i: usize = 0;
        while i < self.accounts.len()
            invariant
                i <= self.accounts@.len(),
                forall|a: int, b: int|
                    0 <= a < b < i ==> self.accounts@[a].address@ != self.accounts@[b].address@,
                forall|a: int|
                    0 <= a < i ==> #[trigger] self.accounts@[a].token.balance <= self.total_supply,
            decreases self.accounts@.len() - i,
        {
            if self.accounts[i].token.balance > self.total_supply {
                return false;
            }
            let mut j: usize = 0;
            while j < i
                invariant
                    j <= i < self.accounts@.len(),
                    forall|a: int|
                        0 <= a < j ==> self.accounts@[a].address@ != self.accounts@[i as int].address@,
                decreases i - j,
            {
                if self.accounts[j].address == self.accounts[i].address {
                    return false;
                }
                j += 1;
            }
            i += 1;
        }
        true
    }

    /// Finds the entry kept for `who`, if there is one.
    pub fn find_account(&self, who: &String) -> (at: Option<usize>)
        ensures
            match at {
                Some(i) => i < self.accounts@.len() && self.accounts@[i as int].address@ == who@,
                None => !self.holds(who@),
            },
    {
        let mut i: usize = 0;
        while i < self.accounts.len()
            invariant
                i <= self.accounts@.len(),
                forall|k: int| 0 <= k < i ==> self.accounts@[k].address@ != who@,
            decreases self.accounts@.len() - i,
        {
            if self.accounts[i].address == *who {
                return Some(i);
            }
            i += 1;
        }
        None
    }
}

} // verus!
