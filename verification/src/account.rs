//! A single monetary account: an id, a holder label, and a balance in minor
//! currency units that is never observably negative.

use vstd::prelude::*;
use vstd::string::StringExecFns;

use crate::errors::AccountError;
use crate::render::{dec_rep, format_money, money_rep, to_decimal};

verus! {

/// An account: created with balance zero, mutated only through
/// `deposit` and `withdraw`, which keep the balance non-negative.
pub struct Account {
    pub id: u32,
    pub holder: String,
    pub balance: i64,
}

/// The outcome of depositing `amount` into a balance of `balance`:
/// the new balance, or the error the operation must report.
pub open spec fn deposit_result(balance: int, amount: int) -> Result<int, AccountError> {
    if amount < 0 {
        Err(AccountError::NegativeAmount)
    } else if balance + amount > i64::MAX {
        Err(AccountError::AmountOverflow)
    } else {
        Ok(balance + amount)
    }
}

/// The outcome of withdrawing `amount` from a balance of `balance`:
/// the new balance, or the error the operation must report.
pub open spec fn withdraw_result(balance: int, amount: int) -> Result<int, AccountError> {
    if amount < 0 {
        Err(AccountError::NegativeAmount)
    } else if balance < amount {
        Err(AccountError::InsufficientFunds)
    } else {
        Ok(balance - amount)
    }
}

impl Account {
    /// The account invariant: the balance is never negative.
    pub open spec fn wf(self) -> bool {
        0 <= self.balance
    }

    /// The summary line of this account, as a sequence of characters.
    pub open spec fn summary_rep(self) -> Seq<char> {
        "Account "@ + dec_rep(self.id as nat) + " ("@ + self.holder@ + ") has a balance of "@
            + money_rep(self.balance as int)
    }

    /// Creates an account with the given id and holder and a zero balance.
    pub fn new(id: u32, holder: String) -> (r: Account)
        ensures
            r.id == id,
            r.holder == holder,
            r.balance == 0,
            r.wf(),
    {
        Account { id, holder, balance: 0 }
    }

    /// Adds `amount` to the balance. Fails with `NegativeAmount` on a
    /// negative amount and with `AmountOverflow` when the sum would not be
    /// representable; on failure the account is unchanged.
    pub fn deposit(&mut self, amount: i64) -> (r: Result<i64, AccountError>)
        requires
            old(self).wf(),
        ensures
            final(self).wf(),
            final(self).id == old(self).id,
            final(self).holder == old(self).holder,
            (match r {
                Ok(b) => deposit_result(old(self).balance as int, amount as int) == Ok::<
                    int,
                    AccountError,
                >(b as int) && final(self).balance == b,
                Err(e) => deposit_result(old(self).balance as int, amount as int) == Err::<
                    int,
                    AccountError,
                >(e) && *final(self) == *old(self),
            }),
    {
        if amount < 0 {
            return Err(AccountError::NegativeAmount);
        }
        match self.balance.checked_add(amount) {
            Some(b) => {
                self.balance = b;
                Ok(b)
            },
            None => Err(AccountError::AmountOverflow),
        }
    }

    /// Subtracts `amount` from the balance. Fails with `NegativeAmount` on a
    /// negative amount and with `InsufficientFunds` when the balance is less
    /// than `amount`; on failure the account is unchanged.
    pub fn withdraw(&mut self, amount: i64) -> (r: Result<i64, AccountError>)
        requires
            old(self).wf(),
        ensures
            final(self).wf(),
            final(self).id == old(self).id,
            final(self).holder == old(self).holder,
            (match r {
                Ok(b) => withdraw_result(old(self).balance as int, amount as int) == Ok::<
                    int,
                    AccountError,
                >(b as int) && final(self).balance == b,
                Err(e) => withdraw_result(old(self).balance as int, amount as int) == Err::<
                    int,
                    AccountError,
                >(e) && *final(self) == *old(self),
            }),
    {
        if amount < 0 {
            return Err(AccountError::NegativeAmount);
        }
        if self.balance < amount {
            return Err(AccountError::InsufficientFunds);
        }
        self.balance = self.balance - amount;
        Ok(self.balance)
    }

    /// Renders the summary line, e.g.
    /// `Account 1 (Ada) has a balance of $250.00`.
    pub fn summary(&self) -> (s: String)
        requires
            self.wf(),
        ensures
            s@ == self.summary_rep(),
    {
        let mut s = String::from_str("Account ");
        let id_digits = to_decimal(self.id as u64);
        s.append(id_digits.as_str());
        s.append(" (");
        s.append(self.holder.as_str());
        s.append(") has a balance of ");
        let money = format_money(self.balance);
        s.append(money.as_str());
        proof {
            assert(s@ =~= self.summary_rep());
        }
        s
    }
}

/// Depositing `a` and then `b` leaves the same balance as depositing
/// `a + b` in one call: both successions succeed and end at
/// `balance + a + b` whenever the amounts are non-negative and the final
/// sum is representable.
pub proof fn lemma_deposit_additive(balance: int, a: int, b: int)
    requires
        0 <= balance,
        0 <= a,
        0 <= b,
        balance + a + b <= i64::MAX,
    ensures
        deposit_result(balance, a) == Ok::<int, AccountError>(balance + a),
        deposit_result(balance + a, b) == Ok::<int, AccountError>(balance + a + b),
        deposit_result(balance, a + b) == Ok::<int, AccountError>(balance + a + b),
{
}

} // verus!
