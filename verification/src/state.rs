//! The ledger store: the singleton configuration and the per-account
//! balance table, with the mutation rules that every correctness property
//! rests on (create on first credit, checked increment, decrement only up
//! to the balance, delete a non-owner entry that reaches zero).

use vstd::prelude::*;

use crate::error::ContractError;

verus! {

/// The singleton contract configuration: created once at initialization,
/// immutable thereafter.
#[derive(Clone, Debug, PartialEq, Eq)]
pub struct State {
    /// The account every transfer fee is routed to.
    pub owner: String,
    /// The fee, in usei, deducted from every transfer.
    pub send_fee: u128,
}

/// A persisted (account, balance) pair of withdrawable credit.
#[derive(Clone, Debug, PartialEq, Eq)]
struct BalanceEntry {
    account: String,
    balance: u128,
}

/// The balance table: a mapping from account identifiers to withdrawable
/// credit.  Viewed abstractly as a `Map<Seq<char>, u128>`.
#[derive(Clone, Debug, PartialEq, Eq)]
pub struct Ledger {
    entries: Vec<BalanceEntry>,
}

/// The balance an account reads as: its mapped value, or zero when absent.
pub open spec fn bal_of(m: Map<Seq<char>, u128>, k: Seq<char>) -> u128 {
    if m.dom().contains(k) {
        m[k]
    } else {
        0
    }
}

/// The ledger invariant on balances: every present entry is non-zero,
/// except the owner's, which may be retained at zero.
pub open spec fn nonzero_except(m: Map<Seq<char>, u128>, owner: Seq<char>) -> bool {
    forall|k: Seq<char>| m.dom().contains(k) && k != owner ==> m[k] > 0
}

spec fn seq_unique(s: Seq<BalanceEntry>) -> bool {
    forall|i: int, j: int|
        #![trigger s[i].account@, s[j].account@]
        0 <= i < s.len() && 0 <= j < s.len() && i != j ==> s[i].account@ != s[j].account@
}

spec fn seq_has(s: Seq<BalanceEntry>, k: Seq<char>) -> bool {
    exists|i: int| 0 <= i < s.len() && s[i].account@ == k
}

spec fn seq_bal(s: Seq<BalanceEntry>, k: Seq<char>) -> u128 {
    s[choose|i: int| 0 <= i < s.len() && s[i].account@ == k].balance
}

/// With unique keys, the entry at index `i` is exactly what its key
/// reads as through `seq_has` / `seq_bal`.
proof fn lemma_entry_at(s: Seq<BalanceEntry>, i: int)
    requires
        seq_unique(s),
        0 <= i < s.len(),
    ensures
        seq_has(s, s[i].account@),
        seq_bal(s, s[i].account@) == s[i].balance,
{
    let k = s[i].account@;
    assert(seq_has(s, k)) by {
        assert(0 <= i < s.len() && s[i].account@ == k);
    }
    let j = choose|j: int| 0 <= j < s.len() && s[j].account@ == k;
    assert(j == i);
}

/// Replacing the balance at index `i` changes what exactly one key reads
/// as and nothing else.
proof fn lemma_update_pointwise(s0: Seq<BalanceEntry>, s1: Seq<BalanceEntry>, i: int, k: Seq<char>)
    requires
        seq_unique(s0),
        0 <= i < s0.len(),
        s0[i].account@ == k,
        s1.len() == s0.len(),
        s1[i].account@ == k,
        forall|j: int| 0 <= j < s0.len() && j != i ==> s1[j] == s0[j],
    ensures
        seq_unique(s1),
        forall|k2: Seq<char>| #[trigger] seq_has(s1, k2) == (k2 == k || seq_has(s0, k2)),
        forall|k2: Seq<char>|
            seq_has(s1, k2) ==> #[trigger] seq_bal(s1, k2) == (if k2 == k {
                s1[i].balance
            } else {
                seq_bal(s0, k2)
            }),
{
    assert forall|p: int, q: int|
        #![trigger s1[p].account@, s1[q].account@]
        0 <= p < s1.len() && 0 <= q < s1.len() && p != q implies s1[p].account@
        != s1[q].account@ by {
        assert(s0[p].account@ != s0[q].account@);
        if p != i {
            assert(s1[p] == s0[p]);
        }
        if q != i {
            assert(s1[q] == s0[q]);
        }
    }
    assert forall|k2: Seq<char>| #[trigger] seq_has(s1, k2) == (k2 == k || seq_has(s0, k2)) by {
        if seq_has(s1, k2) {
            let j = choose|j: int| 0 <= j < s1.len() && s1[j].account@ == k2;
            if j == i {
                assert(k2 == k);
            } else {
                assert(s0[j].account@ == k2);
                assert(seq_has(s0, k2));
            }
        }
        if k2 == k {
            assert(s1[i].account@ == k2);
            assert(seq_has(s1, k2));
        } else if seq_has(s0, k2) {
            let j = choose|j: int| 0 <= j < s0.len() && s0[j].account@ == k2;
            assert(j != i);
            assert(s1[j].account@ == k2);
            assert(seq_has(s1, k2));
        }
    }
    assert forall|k2: Seq<char>| seq_has(s1, k2) implies #[trigger] seq_bal(s1, k2) == (if k2
        == k {
        s1[i].balance
    } else {
        seq_bal(s0, k2)
    }) by {
        let j = choose|j: int| 0 <= j < s1.len() && s1[j].account@ == k2;
        lemma_entry_at(s1, j);
        if k2 == k {
            assert(j == i);
        } else {
            assert(j != i);
            assert(s1[j] == s0[j]);
            lemma_entry_at(s0, j);
        }
    }
}

/// Appending an entry for a fresh key adds exactly that key and leaves
/// what every other key reads as unchanged.
proof fn lemma_push_pointwise(s0: Seq<BalanceEntry>, s1: Seq<BalanceEntry>, k: Seq<char>)
    requires
        seq_unique(s0),
        !seq_has(s0, k),
        s1.len() == s0.len() + 1,
        s1[s0.len() as int].account@ == k,
        forall|j: int| 0 <= j < s0.len() ==> s1[j] == s0[j],
    ensures
        seq_unique(s1),
        forall|k2: Seq<char>| #[trigger] seq_has(s1, k2) == (k2 == k || seq_has(s0, k2)),
        forall|k2: Seq<char>|
            seq_has(s1, k2) ==> #[trigger] seq_bal(s1, k2) == (if k2 == k {
                s1[s0.len() as int].balance
            } else {
                seq_bal(s0, k2)
            }),
{
    let n = s0.len() as int;
    assert forall|p: int, q: int|
        #![trigger s1[p].account@, s1[q].account@]
        0 <= p < s1.len() && 0 <= q < s1.len() && p != q implies s1[p].account@
        != s1[q].account@ by {
        if p < n && q < n {
            assert(s0[p].account@ != s0[q].account@);
            assert(s1[p] == s0[p]);
            assert(s1[q] == s0[q]);
        } else if p == n && q < n {
            assert(s1[q] == s0[q]);
            assert(s0[q].account@ != k);
        } else if q == n && p < n {
            assert(s1[p] == s0[p]);
            assert(s0[p].account@ != k);
        }
    }
    assert forall|k2: Seq<char>| #[trigger] seq_has(s1, k2) == (k2 == k || seq_has(s0, k2)) by {
        if seq_has(s1, k2) {
            let j = choose|j: int| 0 <= j < s1.len() && s1[j].account@ == k2;
            if j == n {
                assert(k2 == k);
            } else {
                assert(s1[j] == s0[j]);
                assert(seq_has(s0, k2));
            }
        }
        if k2 == k {
            assert(s1[n].account@ == k2);
            assert(seq_has(s1, k2));
        } else if seq_has(s0, k2) {
            let j = choose|j: int| 0 <= j < s0.len() && s0[j].account@ == k2;
            assert(s1[j].account@ == k2);
            assert(seq_has(s1, k2));
        }
    }
    assert forall|k2: Seq<char>| seq_has(s1, k2) implies #[trigger] seq_bal(s1, k2) == (if k2
        == k {
        s1[n].balance
    } else {
        seq_bal(s0, k2)
    }) by {
        let j = choose|j: int| 0 <= j < s1.len() && s1[j].account@ == k2;
        lemma_entry_at(s1, j);
        if k2 == k {
            assert(j == n);
        } else {
            assert(j != n);
            assert(s1[j] == s0[j]);
            lemma_entry_at(s0, j);
        }
    }
}

/// Removing the entry at index `i` removes exactly that key and leaves
/// what every other key reads as unchanged.
proof fn lemma_remove_pointwise(s0: Seq<BalanceEntry>, s1: Seq<BalanceEntry>, i: int, k: Seq<char>)
    requires
        seq_unique(s0),
        0 <= i < s0.len(),
        s0[i].account@ == k,
        s1 == s0.remove(i),
    ensures
        seq_unique(s1),
        forall|k2: Seq<char>| #[trigger] seq_has(s1, k2) == (k2 != k && seq_has(s0, k2)),
        forall|k2: Seq<char>| seq_has(s1, k2) ==> #[trigger] seq_bal(s1, k2) == seq_bal(s0, k2),
{
    s0.remove_ensures(i);
    assert(s1.len() == s0.len() - 1);
    assert(forall|j: int| 0 <= j < i ==> s1[j] == s0[j]);
    assert(forall|j: int| i <= j < s1.len() ==> s1[j] == s0[j + 1]);
    assert forall|p: int, q: int|
        #![trigger s1[p].account@, s1[q].account@]
        0 <= p < s1.len() && 0 <= q < s1.len() && p != q implies s1[p].account@
        != s1[q].account@ by {
        let p0 = if p < i {
            p
        } else {
            p + 1
        };
        let q0 = if q < i {
            q
        } else {
            q + 1
        };
        assert(s1[p] == s0[p0]);
        assert(s1[q] == s0[q0]);
        assert(s0[p0].account@ != s0[q0].account@);
    }
    assert forall|k2: Seq<char>| #[trigger] seq_has(s1, k2) == (k2 != k && seq_has(s0, k2)) by {
        if seq_has(s1, k2) {
            let j = choose|j: int| 0 <= j < s1.len() && s1[j].account@ == k2;
            let j0 = if j < i {
                j
            } else {
                j + 1
            };
            assert(s1[j] == s0[j0]);
            assert(s0[j0].account@ == k2);
            assert(seq_has(s0, k2));
            assert(j0 != i);
            assert(s0[j0].account@ != s0[i].account@);
        }
        if k2 != k && seq_has(s0, k2) {
            let j0 = choose|j0: int| 0 <= j0 < s0.len() && s0[j0].account@ == k2;
            assert(j0 != i);
            let j = if j0 < i {
                j0
            } else {
                j0 - 1
            };
            assert(s1[j] == s0[j0]);
            assert(seq_has(s1, k2));
        }
    }
    assert forall|k2: Seq<char>| seq_has(s1, k2) implies #[trigger] seq_bal(s1, k2) == seq_bal(
        s0,
        k2,
    ) by {
        let j = choose|j: int| 0 <= j < s1.len() && s1[j].account@ == k2;
        lemma_entry_at(s1, j);
        let j0 = if j < i {
            j
        } else {
            j + 1
        };
        assert(s1[j] == s0[j0]);
        lemma_entry_at(s0, j0);
    }
}

impl View for Ledger {
    type V = Map<Seq<char>, u128>;

    closed spec fn view(&self) -> Map<Seq<char>, u128> {
        Map::new(
            |k: Seq<char>| seq_has(self.entries@, k),
            |k: Seq<char>| seq_bal(self.entries@, k),
        )
    }
}

impl Ledger {
    /// The structural invariant: no account appears in two entries.
    pub closed spec fn well_formed(&self) -> bool {
        seq_unique(self.entries@)
    }

    /// An empty balance table.
    pub fn new() -> (r: Ledger)
        ensures
            r.well_formed(),
            r@ == Map::<Seq<char>, u128>::empty(),
    {
        let r = Ledger { entries: Vec::new() };
        proof {
            assert(r@ =~= Map::<Seq<char>, u128>::empty());
        }
        r
    }

    /// The index of the entry for `account`, if there is one.
    fn find_index(&self, account: &String) -> (r: Option<usize>)
        ensures
            match r {
                Some(i) => i < self.entries@.len() && self.entries@[i as int].account@ == account@,
                None => forall|j: int|
                    0 <= j < self.entries@.len() ==> self.entries@[j].account@ != account@,
            },
    {
        let n = self.entries.len();
        let mut i: usize = 0;
        while i < n
            invariant
                n == self.entries@.len(),
                i <= n,
                forall|j: int| 0 <= j < i ==> self.entries@[j].account@ != account@,
            decreases n - i,
        {
            if self.entries[i].account == *account {
                return Some(i);
            }
            i = i + 1;
        }
        None
    }

    /// Whether `account` has a ledger entry at all.
    pub fn has_account(&self, account: &String) -> (r: bool)
        ensures
            r == self@.dom().contains(account@),
    {
        match self.find_index(account) {
            Some(i) => {
                proof {
                    assert(seq_has(self.entries@, account@)) by {
                        assert(self.entries@[i as int].account@ == account@);
                    }
                }
                true
            },
            None => {
                proof {
                    assert(!seq_has(self.entries@, account@));
                }
                false
            },
        }
    }

    /// The balance of `account`: zero, not an error, when absent.
    pub fn get_balance(&self, account: &String) -> (r: u128)
        requires
            self.well_formed(),
        ensures
            r == bal_of(self@, account@),
    {
        match self.find_index(account) {
            Some(i) => {
                proof {
                    lemma_entry_at(self.entries@, i as int);
                }
                self.entries[i].balance
            },
            None => {
                proof {
                    assert(!seq_has(self.entries@, account@));
                }
                0
            },
        }
    }

    /// Credit `amount` to `account`, creating the entry on first credit;
    /// a zero credit to an absent account leaves the table as it was.
    /// An overflowing credit is rejected and changes nothing.
    pub fn credit(&mut self, account: &String, amount: u128) -> (r: Result<(), ContractError>)
        requires
            old(self).well_formed(),
        ensures
            final(self).well_formed(),
            match r {
                Ok(_) => bal_of(old(self)@, account@) + amount <= u128::MAX && (if old(
                    self,
                )@.dom().contains(account@) || amount > 0 {
                    final(self)@ == old(self)@.insert(
                        account@,
                        (bal_of(old(self)@, account@) + amount) as u128,
                    )
                } else {
                    *final(self) == *old(self)
                }),
                Err(e) => e == ContractError::BalanceOverflow && bal_of(old(self)@, account@)
                    + amount > u128::MAX && *final(self) == *old(self),
            },
    {
        match self.find_index(account) {
            Some(i) => {
                proof {
                    lemma_entry_at(self.entries@, i as int);
                    assert(self@.dom().contains(account@));
                    assert(bal_of(self@, account@) == self.entries@[i as int].balance);
                }
                let bal = self.entries[i].balance;
                if amount > u128::MAX - bal {
                    return Err(ContractError::BalanceOverflow);
                }
                let nb = bal + amount;
                let ghost s0 = self.entries@;
                self.entries[i].balance = nb;
                proof {
                    lemma_update_pointwise(s0, self.entries@, i as int, account@);
                    assert(self@.dom() =~= old(self)@.insert(account@, nb).dom());
                    assert(self@ =~= old(self)@.insert(account@, nb));
                }
                Ok(())
            },
            None => {
                proof {
                    assert(!seq_has(self.entries@, account@));
                    assert(!self@.dom().contains(account@));
                }
                if amount == 0 {
                    return Ok(());
                }
                let ghost s0 = self.entries@;
                self.entries.push(BalanceEntry { account: account.clone(), balance: amount });
                proof {
                    lemma_push_pointwise(s0, self.entries@, account@);
                    assert(self@.dom() =~= old(self)@.insert(account@, amount).dom());
                    assert(self@ =~= old(self)@.insert(account@, amount));
                }
                Ok(())
            },
        }
    }

    /// Debit `amount` from `account`.  A debit past the balance is
    /// rejected, never clamped, and an absent account is never created.
    /// A non-owner entry that reaches exactly zero is removed; the
    /// owner's entry is retained even at zero.
    pub fn debit(&mut self, account: &String, amount: u128, owner: &String) -> (r: Result<
        (),
        ContractError,
    >)
        requires
            old(self).well_formed(),
        ensures
            final(self).well_formed(),
            match r {
                Ok(_) => amount <= bal_of(old(self)@, account@) && (if old(self)@.dom().contains(
                    account@,
                ) {
                    if old(self)@[account@] == amount && account@ != owner@ {
                        final(self)@ == old(self)@.remove(account@)
                    } else {
                        final(self)@ == old(self)@.insert(
                            account@,
                            (old(self)@[account@] - amount) as u128,
                        )
                    }
                } else {
                    *final(self) == *old(self)
                }),
                Err(e) => e == ContractError::InsufficientFunds && amount > bal_of(
                    old(self)@,
                    account@,
                ) && *final(self) == *old(self),
            },
    {
        match self.find_index(account) {
            Some(i) => {
                proof {
                    lemma_entry_at(self.entries@, i as int);
                }
                let bal = self.entries[i].balance;
                if amount > bal {
                    return Err(ContractError::InsufficientFunds);
                }
                let nb = bal - amount;
                if nb == 0 && !(*account == *owner) {
                    let ghost s0 = self.entries@;
                    self.entries.remove(i);
                    proof {
                        lemma_remove_pointwise(s0, self.entries@, i as int, account@);
                        assert(self@.dom() =~= old(self)@.remove(account@).dom());
                        assert(self@ =~= old(self)@.remove(account@));
                    }
                } else {
                    let ghost s0 = self.entries@;
                    self.entries[i].balance = nb;
                    proof {
                        lemma_update_pointwise(s0, self.entries@, i as int, account@);
                        assert(self@.dom() =~= old(self)@.insert(account@, nb).dom());
                        assert(self@ =~= old(self)@.insert(account@, nb));
                    }
                }
                Ok(())
            },
            None => {
                proof {
                    assert(!seq_has(self.entries@, account@));
                }
                if amount > 0 {
                    return Err(ContractError::InsufficientFunds);
                }
                Ok(())
            },
        }
    }

    /// The table as a list of (account, balance) pairs: every pair is a
    /// present entry, no account repeats, and every present account
    /// appears.
    pub fn to_entries(&self) -> (r: Vec<(String, u128)>)
        requires
            self.well_formed(),
        ensures
            forall|i: int|
                0 <= i < r@.len() ==> #[trigger] self@.dom().contains(r@[i].0@) && self@[r@[i].0@]
                    == r@[i].1,
            forall|i: int, j: int|
                0 <= i < r@.len() && 0 <= j < r@.len() && i != j ==> r@[i].0@ != r@[j].0@,
            forall|k: Seq<char>|
                self@.dom().contains(k) ==> exists|i: int| 0 <= i < r@.len() && r@[i].0@ == k,
    {
        let mut out: Vec<(String, u128)> = Vec::new();
        let n = self.entries.len();
        let mut idx: usize = 0;
        while idx < n
            invariant
                n == self.entries@.len(),
                idx <= n,
                out@.len() == idx,
                forall|i: int|
                    0 <= i < idx ==> #[trigger] out@[i].0@ == self.entries@[i].account@
                        && out@[i].1 == self.entries@[i].balance,
            decreases n - idx,
        {
            let acct = self.entries[idx].account.clone();
            let bal = self.entries[idx].balance;
            out.push((acct, bal));
            idx = idx + 1;
        }
        proof {
            assert forall|i: int|
                0 <= i < out@.len() implies #[trigger] self@.dom().contains(out@[i].0@)
                && self@[out@[i].0@] == out@[i].1 by {
                lemma_entry_at(self.entries@, i);
            }
            assert forall|k: Seq<char>| self@.dom().contains(k) implies exists|i: int|
                0 <= i < out@.len() && out@[i].0@ == k by {
                let j = choose|j: int| 0 <= j < self.entries@.len() && self.entries@[j].account@
                    == k;
                assert(out@[j].0@ == k);
            }
        }
        out
    }
}

} // verus!
