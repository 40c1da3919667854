//! Plain values shared by the ledger and its collaborators.

use vstd::prelude::*;

verus! {

/// Identifier of an account.
pub type AccountId = u64;

/// An amount of the staked currency.
pub type Balance = u128;

/// Why an operation of the ledger was refused.
#[derive(Clone, Copy, Debug, PartialEq, Eq, Structural)]
pub enum Error {
    /// The account cannot perform this operation.
    NotAllowed,
    /// An existing staker cannot become a delegatee.
    AlreadyStaker,
    /// Reward destination cannot be the delegatee account.
    InvalidRewardDestination,
    /// Delegation conditions are not met: the target has blocked
    /// delegations, the delegation is to oneself, through a chain, or to a
    /// second delegatee.
    InvalidDelegation,
    /// The account does not have enough funds to perform the operation.
    NotEnoughFunds,
    /// Not an existing delegatee account.
    NotDelegatee,
    /// Not a delegator account.
    NotDelegator,
    /// Some corruption in internal state. This is the fatal kind: it is
    /// raised when the ledger and a collaborator no longer agree.
    BadState,
    /// Unapplied pending slash restricts operation on delegatee.
    UnappliedSlash,
    /// Failed to withdraw amount from the staking backend.
    WithdrawFailed,
}

impl Error {
    /// Whether this error reports a broken invariant rather than a request
    /// that was merely refused.
    pub open spec fn spec_is_fatal(self) -> bool {
        self == Error::BadState
    }

    /// Whether this error reports a broken invariant rather than a request
    /// that was merely refused.
    #[verifier::when_used_as_spec(spec_is_fatal)]
    pub fn is_fatal(self) -> (fatal: bool)
        ensures
            fatal == (self == Error::BadState),
    {
        match self {
            Error::BadState => true,
            _ => false,
        }
    }
}

/// A collaborator did not do what it was asked. The ledger reports it as
/// the error of its own that is nearest to what was being done.
#[derive(Clone, Copy, Debug, PartialEq, Eq, Structural)]
pub struct Refusal;

/// A reason for placing a hold on funds.
#[derive(Clone, Copy, Debug, PartialEq, Eq, Structural)]
pub enum HoldReason {
    /// Funds held for stake delegation to another account.
    Delegating,
}

/// How exactly a released amount must match the requested one.
#[derive(Clone, Copy, Debug, PartialEq, Eq, Structural)]
pub enum Precision {
    /// The whole amount or nothing.
    Exact,
    /// As much as is possible, up to the amount.
    BestEffort,
}

/// Whether a transfer may close the account it takes funds from.
#[derive(Clone, Copy, Debug, PartialEq, Eq, Structural)]
pub enum Preservation {
    /// The account may be emptied and reaped.
    Expendable,
    /// The account must not be reaped.
    Protect,
    /// The account must keep its minimum balance.
    Preserve,
}

/// How an account's stake is funded, for external reporting.
#[derive(Clone, Copy, Debug, PartialEq, Eq, Structural)]
pub enum StakeBalanceType {
    /// The account stakes its own funds.
    Direct,
    /// The account stakes funds delegated to it.
    Delegated,
}

/// How an account takes part in staking at the backend.
#[derive(Clone, Debug, PartialEq, Eq)]
pub enum StakerStatus {
    /// Chilling.
    Idle,
    /// Declaring desire to validate.
    Validator,
    /// Declaring desire to nominate the given accounts.
    Nominator(Vec<AccountId>),
}

/// The part of a backend stake that the ledger reads.
#[derive(Clone, Copy, Debug, PartialEq, Eq, Structural)]
pub struct Stake {
    /// Everything the backend has locked for the account.
    pub total: Balance,
    /// The part of it that is actively staked.
    pub active: Balance,
}

/// What the ledger asks of the staking backend to bring a delegatee's bond
/// up to what is delegated to it.
#[derive(Clone, Copy, Debug, PartialEq, Eq, Structural)]
pub enum BondCommand {
    /// Bond `amount` for `who` for the first time, rewards going to `payee`.
    Bond { who: AccountId, amount: Balance, payee: AccountId },
    /// Add `amount` to the existing bond of `who`.
    BondExtra { who: AccountId, amount: Balance },
}

impl BondCommand {
    /// The amount that the command bonds.
    pub open spec fn spec_amount(&self) -> Balance {
        match *self {
            BondCommand::Bond { amount, .. } => amount,
            BondCommand::BondExtra { amount, .. } => amount,
        }
    }

    /// The amount that the command bonds.
    #[verifier::when_used_as_spec(spec_amount)]
    pub fn amount(&self) -> (amount: Balance)
        ensures
            amount == self.spec_amount(),
    {
        match *self {
            BondCommand::Bond { amount, .. } => amount,
            BondCommand::BondExtra { amount, .. } => amount,
        }
    }
}

} // verus!
