//! The immutable contract configuration.
use vstd::prelude::*;

use crate::MerkleClaim;

verus! {

/// Fixed at initialization and read-only thereafter: the owner cannot be
/// rotated and the reserve floor cannot be changed.
#[derive(Debug)]
pub struct Config {
    /// The owner of the contract, who alone may administer campaigns and
    /// withdraw the balance above the reserve.
    pub owner_account_id: String,
    /// The minimum balance, in yocto NEAR, that the contract must retain.
    pub min_storage_deposit: u128,
}

impl MerkleClaim {
    /// Returns the current contract configuration.
    pub fn get_config(&self) -> (config: &Config)
        ensures
            *config == self.config,
    {
        &self.config
    }
}

} // verus!
