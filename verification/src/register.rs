//! The per-delegatee register of delegations.

use vstd::prelude::*;
use crate::types::{AccountId, Balance};

verus! {

/// Register of all delegations to a delegatee.
///
/// It tracks the funds currently delegated to the delegatee, how much of
/// them is bonded with the staking backend, and the slashes that were
/// assessed but not yet taken from individual delegators.
#[derive(Clone, Copy, Debug, PartialEq, Eq, Structural)]
pub struct DelegationRegister {
    /// Where the reward should be paid out.
    pub payee: AccountId,
    /// Sum of all delegated funds to this delegatee.
    pub total_delegated: Balance,
    /// Amount that is bonded and held.
    pub hold: Balance,
    /// Slashes that are not yet applied.
    pub pending_slash: Balance,
    /// Whether this delegatee is blocked from receiving new delegations.
    pub blocked: bool,
}

/// `a - b`, or zero where `b` exceeds `a`.
pub open spec fn saturating_diff(a: Balance, b: Balance) -> Balance {
    if a >= b {
        (a - b) as Balance
    } else {
        0
    }
}

impl Default for DelegationRegister {
    /// The register that holds nothing and pays to the first account.
    fn default() -> (register: DelegationRegister)
        ensures
            register == DelegationRegister::fresh(0),
    {
        DelegationRegister { payee: 0, total_delegated: 0, hold: 0, pending_slash: 0, blocked: false }
    }
}

impl DelegationRegister {
    /// Neither the bonded amount nor the pending slash exceeds what is
    /// delegated.
    pub open spec fn bounded(self) -> bool {
        &&& self.hold <= self.total_delegated
        &&& self.pending_slash <= self.total_delegated
    }

    /// The register of a delegatee that has just started to accept
    /// delegations.
    pub open spec fn fresh(payee: AccountId) -> DelegationRegister {
        DelegationRegister { payee, total_delegated: 0, hold: 0, pending_slash: 0, blocked: false }
    }

    /// Balance that can be staked: delegated funds less pending slash.
    pub open spec fn spec_delegated_balance(&self) -> Balance {
        saturating_diff(self.total_delegated, self.pending_slash)
    }

    /// Balance that is delegated but not bonded.
    pub open spec fn spec_unbonded_balance(&self) -> Balance {
        saturating_diff(self.total_delegated, self.hold)
    }

    /// This register with another bonded amount.
    pub open spec fn spec_update_hold(self, amount: Balance) -> DelegationRegister {
        DelegationRegister { hold: amount, ..self }
    }

    /// A register with the given payee, no funds and no block.
    pub fn new(payee: AccountId) -> (register: DelegationRegister)
        ensures
            register == DelegationRegister::fresh(payee),
            register.bounded(),
    {
        DelegationRegister { payee, total_delegated: 0, hold: 0, pending_slash: 0, blocked: false }
    }

    /// Balance that can be staked. A pending slash is never staked again.
    #[verifier::when_used_as_spec(spec_delegated_balance)]
    pub fn delegated_balance(&self) -> (balance: Balance)
        ensures
            balance == self.spec_delegated_balance(),
            self.bounded() ==> balance == self.total_delegated - self.pending_slash,
    {
        self.total_delegated.saturating_sub(self.pending_slash)
    }

    /// Balance that is delegated but not bonded.
    #[verifier::when_used_as_spec(spec_unbonded_balance)]
    pub fn unbonded_balance(&self) -> (balance: Balance)
        ensures
            balance == self.spec_unbonded_balance(),
            self.bounded() ==> balance == self.total_delegated - self.hold,
    {
        self.total_delegated.saturating_sub(self.hold)
    }

    /// Consumes the register and returns it with the bonded amount replaced.
    #[verifier::when_used_as_spec(spec_update_hold)]
    pub fn update_hold(self, amount: Balance) -> (updated: DelegationRegister)
        ensures
            updated == (DelegationRegister { hold: amount, ..self }),
    {
        DelegationRegister { hold: amount, ..self }
    }
}

} // verus!
