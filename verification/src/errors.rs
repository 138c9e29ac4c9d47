//! The error taxonomy for account and bank operations: a flat enum, one
//! variant per failure kind, with a rendering of each as a message string.

use vstd::prelude::*;
use vstd::string::StringExecFns;

verus! {

/// Every way a deposit, withdrawal or transfer can fail.
#[derive(Debug, Clone, Copy, PartialEq, Eq, Structural)]
pub enum AccountError {
    /// The caller supplied a negative amount.
    NegativeAmount,
    /// A withdrawal (or transfer source) lacks sufficient balance.
    InsufficientFunds,
    /// A deposit would push a balance past the representable range.
    AmountOverflow,
    /// A transfer referenced an account id that is not registered.
    AccountNotFound,
}

impl AccountError {
    /// The human-readable message for this error.
    pub fn message(&self) -> (r: String)
        ensures
            self is NegativeAmount ==> r@ == "Amount cannot be negative"@,
            self is InsufficientFunds ==> r@ == "Insufficient funds"@,
            self is AmountOverflow ==> r@ == "Amount overflow"@,
            self is AccountNotFound ==> r@ == "Account not found"@,
    {
        match self {
            AccountError::NegativeAmount => String::from_str("Amount cannot be negative"),
            AccountError::InsufficientFunds => String::from_str("Insufficient funds"),
            AccountError::AmountOverflow => String::from_str("Amount overflow"),
            AccountError::AccountNotFound => String::from_str("Account not found"),
        }
    }
}

} // verus!
