//! The two collaborators of the ledger: the currency that owns balances
//! and holds, and the staking backend that owns the bonded stake.
//!
//! Nothing is assumed of what a collaborator answers: every operation of
//! the ledger is proved for whatever comes back. A collaborator is expected
//! to take part in the caller's unit of work, so that what it did for an
//! operation that fails in the end is undone with it.

use vstd::prelude::*;
use crate::types::{
    AccountId, Balance, HoldReason, Precision, Preservation, Refusal, Stake, StakerStatus,
};

verus! {

/// The fungible currency in which delegations are made.
pub trait Currency {
    /// What `who` could spend now.
    fn reducible_balance(&self, who: AccountId) -> Balance;

    /// The smallest balance an account may hold.
    fn minimum_balance(&self) -> Balance;

    /// Earmarks `amount` of the funds of `who`.
    fn hold(&mut self, reason: HoldReason, who: AccountId, amount: Balance) -> Result<(), Refusal>;

    /// Frees up to `amount` of the earmarked funds of `who` and says how
    /// much was freed.
    fn release(
        &mut self,
        reason: HoldReason,
        who: AccountId,
        amount: Balance,
        precision: Precision,
    ) -> Result<Balance, Refusal>;

    /// Moves `amount` from `from` to `to`.
    fn transfer(
        &mut self,
        from: AccountId,
        to: AccountId,
        amount: Balance,
        preservation: Preservation,
    ) -> Result<(), Refusal>;

    /// Takes up to `amount` of the earmarked funds of `who` for good, to
    /// the benefit of `beneficiary` where one is named, and says how much
    /// was taken.
    fn forfeit(
        &mut self,
        reason: HoldReason,
        who: AccountId,
        amount: Balance,
        beneficiary: Option<AccountId>,
    ) -> Result<Balance, Refusal>;
}

/// The staking backend behind the ledger.
pub trait CoreStaking {
    /// How `who` takes part in staking; a refusal where it does not.
    fn status(&self, who: AccountId) -> Result<StakerStatus, Refusal>;

    /// The stake of `who`; a refusal where it has none.
    fn stake(&self, who: AccountId) -> Result<Stake, Refusal>;

    /// Bonds `amount` for `who` for the first time, rewards going to
    /// `payee`.
    fn bond(&mut self, who: AccountId, amount: Balance, payee: AccountId) -> Result<(), Refusal>;

    /// Adds `amount` to the bond of `who`.
    fn bond_extra(&mut self, who: AccountId, amount: Balance) -> Result<(), Refusal>;

    /// Schedules `amount` of the bond of `who` for unbonding.
    fn unbond(&mut self, who: AccountId, amount: Balance) -> Result<(), Refusal>;

    /// Unlocks everything the backend has locked for `who`.
    fn force_unlock(&mut self, who: AccountId) -> Result<(), Refusal>;

    /// Lets go of exactly `amount` of the unbonded stake of `who`, and
    /// says whether that emptied the stash.
    fn withdraw_exact(
        &mut self,
        who: AccountId,
        amount: Balance,
        num_slashing_spans: u32,
    ) -> Result<bool, Refusal>;

    /// Sets what the backend itself holds for `who`, an account that is
    /// not a delegatee.
    fn update_hold(&mut self, who: AccountId, amount: Balance) -> Result<(), Refusal>;

    /// Lets go of what the backend itself holds for `who`, an account that
    /// is not a delegatee.
    fn release(&mut self, who: AccountId);
}

/// What a pallet is assembled from.
pub trait Config {
    /// The currency in which delegations are made.
    type Currency: Currency;

    /// Core staking implementation.
    type CoreStaking: CoreStaking;
}

} // verus!
