//! Topping the contract's storage balance up.
use vstd::prelude::*;

use crate::{Balance, ContractError, MerkleClaim};

verus! {

impl MerkleClaim {
    /// Accepts an attached deposit toward the storage reserve. Owner-only;
    /// the deposit must cover the reserve, and on success the returned
    /// excess above it is owed back to the caller as a refund.
    pub fn storage_deposit(&self, caller: &str, attached_amount: Balance) -> (r: Result<
        Balance,
        ContractError,
    >)
        ensures
            r == self.spec_storage_deposit(caller@, attached_amount),
    {
        if self.assert_owner(caller).is_err() {
            return Err(ContractError::Authorization);
        }
        if attached_amount < self.config.min_storage_deposit {
            return Err(
                ContractError::Validation(crate::ValidationError::DepositBelowReserve),
            );
        }
        Ok(attached_amount - self.config.min_storage_deposit)
    }
}

} // verus!
