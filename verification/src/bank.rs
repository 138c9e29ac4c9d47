//! The ledger: a bank holding a collection of accounts with unique ids,
//! offering registration, lookup, an aggregate balance, a rendered summary,
//! and an atomic transfer between two accounts.

use vstd::prelude::*;
use vstd::string::StringExecFns;

use crate::account::Account;
use crate::errors::AccountError;
use crate::render::{format_money, money_rep};

verus! {

/// The index of the first account in `s` whose id is `id`, or `-1` when
/// no account has that id.
pub open spec fn find_index(s: Seq<Account>, id: u32) -> int
    decreases s.len(),
{
    if s.len() == 0 {
        -1
    } else if s[0].id == id {
        0
    } else {
        let r = find_index(s.drop_first(), id);
        if r < 0 {
            -1
        } else {
            r + 1
        }
    }
}

/// The sum of the balances of all accounts in `s`.
pub open spec fn sum_balances(s: Seq<Account>) -> int
    decreases s.len(),
{
    if s.len() == 0 {
        0
    } else {
        s[0].balance + sum_balances(s.drop_first())
    }
}

/// `find_index` points at the first occurrence of `id`, and reports `-1`
/// exactly when no account in `s` carries `id`.
pub proof fn lemma_find_index_spec(s: Seq<Account>, id: u32)
    ensures
        -1 <= find_index(s, id) < s.len(),
        find_index(s, id) >= 0 ==> s[find_index(s, id)].id == id,
        find_index(s, id) == -1 ==> forall|k: int| 0 <= k < s.len() ==> s[k].id != id,
        forall|k: int| 0 <= k < find_index(s, id) ==> s[k].id != id,
    decreases s.len(),
{
    if s.len() > 0 && s[0].id != id {
        let d = s.drop_first();
        lemma_find_index_spec(d, id);
        let r = find_index(d, id);
        assert(find_index(s, id) == if r < 0 { -1int } else { r + 1 });
        if find_index(s, id) == -1 {
            assert forall|k: int| 0 <= k < s.len() implies s[k].id != id by {
                if k > 0 {
                    assert(s[k] == d[k - 1]);
                }
            }
        }
        assert forall|k: int| 0 <= k < find_index(s, id) implies s[k].id != id by {
            if k > 0 {
                assert(s[k] == d[k - 1]);
            }
        }
    }
}

/// Two account sequences that agree on their ids agree on every
/// `find_index` answer.
pub proof fn lemma_find_index_same_ids(s1: Seq<Account>, s2: Seq<Account>, id: u32)
    requires
        s1.len() == s2.len(),
        forall|k: int| 0 <= k < s1.len() ==> s1[k].id == s2[k].id,
    ensures
        find_index(s1, id) == find_index(s2, id),
    decreases s1.len(),
{
    if s1.len() > 0 {
        assert(forall|k: int|
            0 <= k < s1.drop_first().len() ==> s1.drop_first()[k].id == s2.drop_first()[k].id);
        lemma_find_index_same_ids(s1.drop_first(), s2.drop_first(), id);
    }
}

/// Appending an account leaves every other id's `find_index` answer
/// unchanged, and resolves the appended id to the old answer where there
/// was one, else to the new last position.
pub proof fn lemma_find_index_push(s: Seq<Account>, a: Account, id: u32)
    ensures
        id != a.id ==> find_index(s.push(a), id) == find_index(s, id),
        id == a.id && find_index(s, id) >= 0 ==> find_index(s.push(a), id) == find_index(s, id),
        id == a.id && find_index(s, id) == -1 ==> find_index(s.push(a), id) == s.len(),
    decreases s.len(),
{
    if s.len() == 0 {
        assert(s.push(a)[0] == a);
        assert(s.push(a).drop_first() =~= Seq::<Account>::empty());
        if a.id == id {
            assert(find_index(s.push(a), id) == 0);
        } else {
            assert(find_index(s.push(a).drop_first(), id) == -1);
            assert(find_index(s.push(a), id) == -1);
        }
    } else {
        let d = s.drop_first();
        assert(s.push(a)[0] == s[0]);
        assert(s.push(a).drop_first() =~= d.push(a));
        lemma_find_index_push(d, a, id);
        let r1 = find_index(d.push(a), id);
        let r2 = find_index(d, id);
        if s[0].id == id {
            assert(find_index(s.push(a), id) == 0);
            assert(find_index(s, id) == 0);
        } else {
            assert(find_index(s.push(a), id) == if r1 < 0 { -1int } else { r1 + 1 });
            assert(find_index(s, id) == if r2 < 0 { -1int } else { r2 + 1 });
        }
    }
}

/// Replacing the account at position `i` shifts the balance sum by the
/// difference of the two balances.
pub proof fn lemma_sum_update(s: Seq<Account>, i: int, a: Account)
    requires
        0 <= i < s.len(),
    ensures
        sum_balances(s.update(i, a)) == sum_balances(s) - s[i].balance + a.balance,
    decreases s.len(),
{
    if i == 0 {
        assert(s.update(0, a).drop_first() =~= s.drop_first());
    } else {
        assert(s.update(i, a).drop_first() =~= s.drop_first().update(i - 1, a));
        lemma_sum_update(s.drop_first(), i - 1, a);
    }
}

/// Appending an account adds its balance to the sum.
pub proof fn lemma_sum_push(s: Seq<Account>, a: Account)
    ensures
        sum_balances(s.push(a)) == sum_balances(s) + a.balance,
    decreases s.len(),
{
    if s.len() == 0 {
        assert(s.push(a)[0] == a);
        assert(s.push(a).drop_first() =~= Seq::<Account>::empty());
        assert(sum_balances(s.push(a).drop_first()) == 0);
        assert(sum_balances(s.push(a)) == a.balance + 0);
    } else {
        assert(s.push(a)[0] == s[0]);
        assert(s.push(a).drop_first() =~= s.drop_first().push(a));
        lemma_sum_push(s.drop_first(), a);
        assert(sum_balances(s.push(a)) == s[0].balance + sum_balances(s.drop_first().push(a)));
        assert(sum_balances(s) == s[0].balance + sum_balances(s.drop_first()));
    }
}

/// The balance sum splits at any cut point.
pub proof fn lemma_sum_split(s: Seq<Account>, i: int)
    requires
        0 <= i <= s.len(),
    ensures
        sum_balances(s) == sum_balances(s.take(i)) + sum_balances(s.skip(i)),
    decreases i,
{
    if i == 0 {
        assert(s.take(0) =~= Seq::<Account>::empty());
        assert(s.skip(0) =~= s);
    } else {
        assert(s.take(i).drop_first() =~= s.drop_first().take(i - 1));
        assert(s.skip(i) =~= s.drop_first().skip(i - 1));
        lemma_sum_split(s.drop_first(), i - 1);
        assert(s.take(i)[0] == s[0]);
    }
}

/// A sum over accounts with non-negative balances is non-negative.
pub proof fn lemma_sum_nonneg(s: Seq<Account>)
    requires
        forall|k: int| 0 <= k < s.len() ==> s[k].wf(),
    ensures
        sum_balances(s) >= 0,
    decreases s.len(),
{
    if s.len() > 0 {
        lemma_sum_nonneg(s.drop_first());
    }
}

/// The summary lines of all accounts in `s`, joined by newlines, in
/// registration order.
pub open spec fn bank_summary_rep(s: Seq<Account>) -> Seq<char>
    decreases s.len(),
{
    if s.len() == 0 {
        Seq::empty()
    } else if s.len() == 1 {
        s[0].summary_rep()
    } else {
        bank_summary_rep(s.drop_last()) + "\n"@ + s.last().summary_rep()
    }
}

/// What a transfer does to the accounts in `pre`: the accounts afterwards,
/// and the outcome reported. The transfer is all-or-nothing: on every
/// error, and on a transfer of an account to itself, the accounts are
/// returned unchanged; overflow of the destination is detected before
/// either balance moves.
pub open spec fn spec_transfer(pre: Seq<Account>, from_id: u32, to_id: u32, amount: i64) -> (Seq<
    Account,
>, Result<(), AccountError>) {
    let fi = find_index(pre, from_id);
    let ti = find_index(pre, to_id);
    if amount < 0 {
        (pre, Err(AccountError::NegativeAmount))
    } else if fi < 0 || ti < 0 {
        (pre, Err(AccountError::AccountNotFound))
    } else if from_id == to_id {
        (pre, Ok(()))
    } else if pre[fi].balance < amount {
        (pre, Err(AccountError::InsufficientFunds))
    } else if pre[ti].balance + amount > i64::MAX {
        (pre, Err(AccountError::AmountOverflow))
    } else {
        (
            pre.update(
                fi,
                Account {
                    id: pre[fi].id,
                    holder: pre[fi].holder,
                    balance: (pre[fi].balance - amount) as i64,
                },
            ).update(
                ti,
                Account {
                    id: pre[ti].id,
                    holder: pre[ti].holder,
                    balance: (pre[ti].balance + amount) as i64,
                },
            ),
            Ok(()),
        )
    }
}

/// A transfer of a registered account to itself is a no-op: for any
/// non-negative amount (even one beyond the account's balance, since the
/// id check comes before the balance check), it succeeds and leaves every
/// account exactly as it was.
pub proof fn lemma_self_transfer_noop(pre: Seq<Account>, x: u32, amount: i64)
    requires
        0 <= amount,
        find_index(pre, x) >= 0,
    ensures
        spec_transfer(pre, x, x, amount) == (pre, Ok::<(), AccountError>(())),
{
}

/// A transfer to or from an unregistered id fails with `AccountNotFound`
/// and mutates no account.
pub proof fn lemma_transfer_unregistered_fails(
    pre: Seq<Account>,
    from_id: u32,
    to_id: u32,
    amount: i64,
)
    requires
        0 <= amount,
        find_index(pre, from_id) < 0 || find_index(pre, to_id) < 0,
    ensures
        spec_transfer(pre, from_id, to_id, amount) == (
            pre,
            Err::<(), AccountError>(AccountError::AccountNotFound),
        ),
{
}

/// The bank: accounts in registration order, with pairwise distinct ids.
pub struct Bank {
    pub accounts: Vec<Account>,
}

impl Bank {
    /// The bank invariant: ids are pairwise distinct and every account
    /// satisfies its own invariant.
    pub open spec fn wf(self) -> bool {
        &&& forall|i: int, j: int|
            0 <= i < j < self.accounts@.len() ==> self.accounts@[i].id != self.accounts@[j].id
        &&& forall|i: int| 0 <= i < self.accounts@.len() ==> self.accounts@[i].wf()
    }

    /// Whether an account with id `id` is registered.
    pub open spec fn has_account(self, id: u32) -> bool {
        find_index(self.accounts@, id) >= 0
    }

    /// The registered account with id `id` (meaningful when present).
    pub open spec fn account_at(self, id: u32) -> Account
        recommends
            self.has_account(id),
    {
        self.accounts@[find_index(self.accounts@, id)]
    }

    /// The balance of the registered account with id `id`.
    pub open spec fn balance_of(self, id: u32) -> int
        recommends
            self.has_account(id),
    {
        self.account_at(id).balance as int
    }

    /// The sum of all registered balances.
    pub open spec fn total(self) -> int {
        sum_balances(self.accounts@)
    }

    /// Creates an empty bank.
    pub fn new() -> (r: Bank)
        ensures
            r.wf(),
            r.accounts@ =~= Seq::<Account>::empty(),
            r.total() == 0,
            forall|id: u32| !r.has_account(id),
    {
        Bank { accounts: Vec::new() }
    }

    /// The position of the account with id `id`, or `None` when absent.
    fn find_account_index(&self, id: u32) -> (r: Option<usize>)
        ensures
            (match r {
                Some(i) => i as int == find_index(self.accounts@, id),
                None => find_index(self.accounts@, id) == -1,
            }),
    {
        proof {
            lemma_find_index_spec(self.accounts@, id);
        }
        let n = self.accounts.len();
        let mut i: usize = 0;
        while i < n
            invariant
                i <= n,
                n == self.accounts@.len(),
                forall|k: int| 0 <= k < i ==> self.accounts@[k].id != id,
            decreases n - i,
        {
            if self.accounts[i].id == id {
                proof {
                    lemma_find_index_spec(self.accounts@, id);
                    assert(find_index(self.accounts@, id) == i as int);
                }
                return Some(i);
            }
            i = i + 1;
        }
        None
    }

    /// Registers `account` under its id: replaces the registered account
    /// carrying the same id if there is one, and appends otherwise.
    pub fn add_account(&mut self, account: Account)
        requires
            old(self).wf(),
            account.wf(),
        ensures
            final(self).wf(),
            final(self).has_account(account.id),
            final(self).account_at(account.id) == account,
            ({
                let fi = find_index(old(self).accounts@, account.id);
                if fi >= 0 {
                    final(self).accounts@ == old(self).accounts@.update(fi, account)
                } else {
                    final(self).accounts@ == old(self).accounts@.push(account)
                }
            }),
            forall|id: u32|
                id != account.id ==> (final(self).has_account(id) <==> old(self).has_account(id)),
            forall|id: u32|
                id != account.id && old(self).has_account(id) ==> final(self).account_at(id)
                    == old(self).account_at(id),
            !old(self).has_account(account.id) ==> final(self).total() == old(self).total()
                + account.balance,
            old(self).has_account(account.id) ==> final(self).total() == old(self).total()
                - old(self).account_at(account.id).balance + account.balance,
    {
        proof {
            lemma_find_index_spec(self.accounts@, account.id);
        }
        let ghost pre: Seq<Account> = self.accounts@;
        match self.find_account_index(account.id) {
            Some(i) => {
                let slot = &mut self.accounts[i];
                *slot = account;
                proof {
                    let fi = find_index(pre, account.id);
                    assert(self.accounts@ =~= pre.update(fi, account));
                    lemma_sum_update(pre, fi, account);
                    assert forall|id: u32| true implies find_index(self.accounts@, id)
                        == find_index(pre, id) by {
                        lemma_find_index_same_ids(self.accounts@, pre, id);
                    }
                    assert forall|id: u32|
                        id != account.id && find_index(pre, id) >= 0 implies self.accounts@[
                        find_index(pre, id)] == pre[find_index(pre, id)] by {
                        lemma_find_index_spec(pre, id);
                    }
                }
            },
            None => {
                self.accounts.push(account);
                proof {
                    lemma_sum_push(pre, account);
                    assert forall|id: u32| id != account.id implies find_index(self.accounts@, id)
                        == find_index(pre, id) by {
                        lemma_find_index_push(pre, account, id);
                    }
                    lemma_find_index_push(pre, account, account.id);
                    assert forall|id: u32|
                        id != account.id && find_index(pre, id) >= 0 implies self.accounts@[
                        find_index(pre, id)] == pre[find_index(pre, id)] by {
                        lemma_find_index_spec(pre, id);
                    }
                }
            },
        }
    }

    /// Looks up the account registered under `id`.
    pub fn get_account(&self, id: u32) -> (r: Option<&Account>)
        ensures
            (match r {
                Some(a) => self.has_account(id) && *a == self.account_at(id),
                None => !self.has_account(id),
            }),
    {
        match self.find_account_index(id) {
            Some(i) => {
                proof {
                    lemma_find_index_spec(self.accounts@, id);
                }
                Some(&self.accounts[i])
            },
            None => None,
        }
    }

    /// Looks up the account registered under `id` for mutation.
    pub fn get_account_mut(&mut self, id: u32) -> (r: Option<&mut Account>)
        ensures
            (match r {
                Some(a) => old(self).has_account(id) && *a == old(self).account_at(id)
                    && final(self).accounts@
                        == old(self).accounts@.update(find_index(old(self).accounts@, id), *final(a)),
                None => !old(self).has_account(id) && *final(self) == *old(self),
            }),
    {
        match self.find_account_index(id) {
            Some(i) => {
                proof {
                    lemma_find_index_spec(self.accounts@, id);
                }
                Some(&mut self.accounts[i])
            },
            None => None,
        }
    }

    /// The sum of all registered balances. The sum must be representable;
    /// every account's balance is non-negative, so no partial sum can
    /// exceed it on the way.
    pub fn total_balance(&self) -> (r: i64)
        requires
            self.wf(),
            self.total() <= i64::MAX,
        ensures
            r as int == self.total(),
    {
        let ghost s = self.accounts@;
        let n = self.accounts.len();
        let mut sum: i64 = 0;
        let mut i: usize = 0;
        while i < n
            invariant
                i <= n,
                n == s.len(),
                s == self.accounts@,
                self.wf(),
                self.total() <= i64::MAX,
                sum as int == sum_balances(s.take(i as int)),
            decreases n - i,
        {
            proof {
                assert(s.take(i as int + 1) =~= s.take(i as int).push(s[i as int]));
                lemma_sum_push(s.take(i as int), s[i as int]);
                lemma_sum_split(s, i as int + 1);
                assert forall|k: int|
                    0 <= k < s.skip(i as int + 1).len() implies (#[trigger] s.skip(
                    i as int + 1,
                )[k]).wf() by {
                    assert(s.skip(i as int + 1)[k] == s[k + i + 1]);
                }
                lemma_sum_nonneg(s.skip(i as int + 1));
                assert forall|k: int|
                    0 <= k < s.take(i as int).len() implies (#[trigger] s.take(i as int)[k]).wf() by {
                    assert(s.take(i as int)[k] == s[k]);
                }
                lemma_sum_nonneg(s.take(i as int));
            }
            sum = sum + self.accounts[i].balance;
            i = i + 1;
        }
        proof {
            assert(s.take(n as int) =~= s);
        }
        sum
    }

    /// Renders every account's summary line, newline-separated, in
    /// registration order.
    pub fn summary(&self) -> (r: String)
        requires
            self.wf(),
        ensures
            r@ == bank_summary_rep(self.accounts@),
    {
        let mut out = String::new();
        let n = self.accounts.len();
        let mut i: usize = 0;
        while i < n
            invariant
                i <= n,
                n == self.accounts@.len(),
                self.wf(),
                out@ == bank_summary_rep(self.accounts@.take(i as int)),
            decreases n - i,
        {
            if i > 0 {
                out.append("\n");
            }
            let line = self.accounts[i].summary();
            out.append(line.as_str());
            proof {
                let t = self.accounts@.take(i as int + 1);
                assert(t.drop_last() =~= self.accounts@.take(i as int));
                assert(t.last() == self.accounts@[i as int]);
                if i == 0 {
                    assert(t[0] == self.accounts@[0]);
                }
                assert(out@ =~= bank_summary_rep(t));
            }
            i = i + 1;
        }
        proof {
            assert(self.accounts@.take(n as int) =~= self.accounts@);
        }
        out
    }

    /// Renders the aggregate line, e.g. `Bank total balance: $550.00`.
    pub fn total_summary(&self) -> (r: String)
        requires
            self.wf(),
            self.total() <= i64::MAX,
        ensures
            r@ == "Bank total balance: "@ + money_rep(self.total()),
    {
        let mut s = String::from_str("Bank total balance: ");
        proof {
            lemma_sum_nonneg(self.accounts@);
        }
        let money = format_money(self.total_balance());
        s.append(money.as_str());
        proof {
            assert(s@ =~= "Bank total balance: "@ + money_rep(self.total()));
        }
        s
    }

    /// Moves `amount` from the account registered under `from_id` to the
    /// one under `to_id`, atomically: either both balances change and the
    /// aggregate total is preserved, or an error is reported and no
    /// account changes. A transfer of an account to itself succeeds as a
    /// no-op without touching its balance.
    pub fn transfer(&mut self, from_id: u32, to_id: u32, amount: i64) -> (r: Result<
        (),
        AccountError,
    >)
        requires
            old(self).wf(),
        ensures
            final(self).wf(),
            final(self).accounts@ == spec_transfer(old(self).accounts@, from_id, to_id, amount).0,
            r == spec_transfer(old(self).accounts@, from_id, to_id, amount).1,
            r is Err ==> final(self).accounts@ == old(self).accounts@,
            r is Ok ==> final(self).total() == old(self).total(),
            r is Ok && from_id != to_id ==> final(self).balance_of(from_id)
                == old(self).balance_of(from_id) - amount
                && final(self).balance_of(to_id) == old(self).balance_of(to_id) + amount,
            forall|id: u32| final(self).has_account(id) <==> old(self).has_account(id),
            forall|id: u32|
                id != from_id && id != to_id && old(self).has_account(id)
                    ==> final(self).account_at(id) == old(self).account_at(id),
    {
        let ghost pre = self.accounts@;
        if amount < 0 {
            return Err(AccountError::NegativeAmount);
        }
        let fi = match self.find_account_index(from_id) {
            Some(i) => i,
            None => {
                return Err(AccountError::AccountNotFound);
            },
        };
        let ti = match self.find_account_index(to_id) {
            Some(i) => i,
            None => {
                return Err(AccountError::AccountNotFound);
            },
        };
        proof {
            lemma_find_index_spec(pre, from_id);
            lemma_find_index_spec(pre, to_id);
        }
        if from_id == to_id {
            return Ok(());
        }
        if self.accounts[fi].balance < amount {
            return Err(AccountError::InsufficientFunds);
        }
        if self.accounts[ti].balance > i64::MAX - amount {
            return Err(AccountError::AmountOverflow);
        }
        let from_acc = &mut self.accounts[fi];
        let _withdrawn = from_acc.withdraw(amount);
        let ghost mid = self.accounts@;
        let to_acc = &mut self.accounts[ti];
        let _deposited = to_acc.deposit(amount);
        proof {
            let fi_ = fi as int;
            let ti_ = ti as int;
            let from_new = Account {
                id: pre[fi_].id,
                holder: pre[fi_].holder,
                balance: (pre[fi_].balance - amount) as i64,
            };
            let to_new = Account {
                id: pre[ti_].id,
                holder: pre[ti_].holder,
                balance: (pre[ti_].balance + amount) as i64,
            };
            assert(mid =~= pre.update(fi_, from_new));
            assert(mid[ti_] == pre[ti_]);
            assert(self.accounts@ =~= pre.update(fi_, from_new).update(ti_, to_new));
            assert(self.accounts@ == spec_transfer(pre, from_id, to_id, amount).0);
            lemma_sum_update(pre, fi_, from_new);
            lemma_sum_update(pre.update(fi_, from_new), ti_, to_new);
            assert forall|id: u32|
                find_index(self.accounts@, id) == find_index(pre, id) by {
                lemma_find_index_same_ids(self.accounts@, pre, id);
            }
            assert forall|id: u32|
                id != from_id && id != to_id && find_index(pre, id) >= 0 implies self.accounts@[
                find_index(pre, id)] == pre[find_index(pre, id)] by {
                lemma_find_index_spec(pre, id);
            }
        }
        Ok(())
    }
}

} // verus!
