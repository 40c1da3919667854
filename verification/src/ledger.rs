//! The mathematical model of the ledger: both stores as maps, the
//! invariants that tie them together, and every operation as a function
//! from one ledger to the next.

use vstd::prelude::*;
use crate::delegation::{
    delegated_to, lemma_delegated_to_insert, lemma_delegated_to_remove, lemma_share_within_total,
    lemma_zero_total_has_no_delegator, share_of, Delegation,
};
use crate::register::DelegationRegister;
use crate::types::{
    AccountId, Balance, BondCommand, Error, Refusal, StakeBalanceType, StakerStatus,
};

verus! {

/// Both stores, as maps.
pub struct Ledger {
    /// Delegator to its delegation.
    pub delegators: Map<AccountId, Delegation>,
    /// Delegatee to its register.
    pub delegatees: Map<AccountId, DelegationRegister>,
}

/// Where no record points at `delegatee`, its sum is zero.
pub proof fn lemma_unreferenced_total_is_zero(
    records: Map<AccountId, Delegation>,
    delegatee: AccountId,
)
    requires
        records.dom().finite(),
        forall|a: AccountId| #[trigger]
            records.contains_key(a) ==> records[a].delegatee != delegatee,
    ensures
        delegated_to(records, delegatee) == 0,
    decreases records.dom().len(),
{
    if records.dom().len() != 0 {
        let chosen = records.dom().choose();
        lemma_unreferenced_total_is_zero(records.remove(chosen), delegatee);
    }
}

impl Ledger {
    /// The ledger with no delegator and no delegatee.
    pub open spec fn empty() -> Ledger {
        Ledger { delegators: Map::empty(), delegatees: Map::empty() }
    }

    /// The accounting invariant: every record holds a positive amount and
    /// points at a registered delegatee, and every register's total is the
    /// sum of the records that point at it.
    pub open spec fn wf(self) -> bool {
        &&& self.delegators.dom().finite()
        &&& self.delegatees.dom().finite()
        &&& forall|a: AccountId| #[trigger]
            self.delegators.contains_key(a) ==> {
                &&& self.delegators[a].amount > 0
                &&& self.delegatees.contains_key(self.delegators[a].delegatee)
            }
        &&& forall|d: AccountId| #[trigger]
            self.delegatees.contains_key(d) ==> self.delegatees[d].total_delegated == delegated_to(
                self.delegators,
                d,
            )
    }

    /// In every register, neither the bonded amount nor the pending slash
    /// exceeds what is delegated.
    pub open spec fn bounded(self) -> bool {
        forall|d: AccountId| #[trigger]
            self.delegatees.contains_key(d) ==> self.delegatees[d].bounded()
    }

    /// Whether `who` has a register.
    pub open spec fn is_delegatee(self, who: AccountId) -> bool {
        self.delegatees.contains_key(who)
    }

    /// What `delegator` has delegated so far; zero without a record.
    pub open spec fn amount_of(self, delegator: AccountId) -> Balance {
        if self.delegators.contains_key(delegator) {
            self.delegators[delegator].amount
        } else {
            0
        }
    }

    /// How far `delegatee`'s total can fall without dropping below its
    /// bonded amount or its pending slash.
    pub open spec fn headroom(self, delegatee: AccountId) -> Balance {
        let register = self.delegatees[delegatee];
        if register.spec_unbonded_balance() <= register.spec_delegated_balance() {
            register.spec_unbonded_balance()
        } else {
            register.spec_delegated_balance()
        }
    }

    // ----- registry lifecycle -----

    /// Why `who` may not start to accept delegations, given whether the
    /// backend knows it as a staker. An account that the backend knows and
    /// that has no register stakes its own funds.
    pub open spec fn accept_refusal(
        self,
        who: AccountId,
        reward_destination: AccountId,
        is_staker: bool,
    ) -> Option<Error> {
        if is_staker && !self.delegatees.contains_key(who) {
            Some(Error::AlreadyStaker)
        } else if reward_destination == who {
            Some(Error::InvalidRewardDestination)
        } else {
            None
        }
    }

    /// The register of `who` after it has accepted delegations: an
    /// existing one is unblocked and paid to the new destination, a missing
    /// one is created empty.
    pub open spec fn accepted_register(
        self,
        who: AccountId,
        reward_destination: AccountId,
    ) -> DelegationRegister {
        if self.delegatees.contains_key(who) {
            DelegationRegister {
                payee: reward_destination,
                blocked: false,
                ..self.delegatees[who]
            }
        } else {
            DelegationRegister::fresh(reward_destination)
        }
    }

    /// The ledger after `who` has accepted delegations.
    pub open spec fn accept(self, who: AccountId, reward_destination: AccountId) -> Ledger {
        Ledger {
            delegatees: self.delegatees.insert(
                who,
                self.accepted_register(who, reward_destination),
            ),
            ..self
        }
    }

    /// The ledger after `who` has blocked new delegations.
    pub open spec fn block(self, who: AccountId) -> Ledger {
        Ledger {
            delegatees: self.delegatees.insert(
                who,
                DelegationRegister { blocked: true, ..self.delegatees[who] },
            ),
            ..self
        }
    }

    /// Why the register of `who` may not be removed.
    pub open spec fn kill_refusal(self, who: AccountId) -> Option<Error> {
        if !self.delegatees.contains_key(who) {
            Some(Error::NotDelegatee)
        } else if self.delegatees[who].total_delegated != 0 || self.delegatees[who].hold != 0 {
            Some(Error::NotAllowed)
        } else {
            None
        }
    }

    /// The ledger without the register of `who`.
    pub open spec fn kill(self, who: AccountId) -> Ledger {
        Ledger { delegatees: self.delegatees.remove(who), ..self }
    }

    /// What the backend is asked to bond for `who`, given whether it
    /// already holds a stake for that account: the part of the delegated
    /// funds that is not bonded yet, and nothing at all where that is zero.
    pub open spec fn bond_command(self, who: AccountId, has_stake: bool) -> Result<
        Option<BondCommand>,
        Error,
    > {
        if !self.delegatees.contains_key(who) {
            Err(Error::NotDelegatee)
        } else {
            let amount = self.delegatees[who].spec_unbonded_balance();
            if amount == 0 {
                Ok(None)
            } else if has_stake {
                Ok(Some(BondCommand::BondExtra { who, amount }))
            } else {
                Ok(Some(BondCommand::Bond { who, amount, payee: self.delegatees[who].payee }))
            }
        }
    }

    // ----- delegation -----

    /// Why `delegator` may not delegate `value` to `delegatee`, whatever
    /// funds it has. The first condition that fails decides.
    pub open spec fn delegation_refusal(
        self,
        delegator: AccountId,
        delegatee: AccountId,
        value: Balance,
    ) -> Option<Error> {
        if delegatee == delegator {
            Some(Error::InvalidDelegation)
        } else if !self.delegatees.contains_key(delegatee) {
            Some(Error::NotDelegatee)
        } else if self.delegatees[delegatee].blocked {
            Some(Error::InvalidDelegation)
        } else if self.delegatees.contains_key(delegator) {
            Some(Error::InvalidDelegation)
        } else if self.delegators.contains_key(delegator) && self.delegators[delegator].delegatee
            != delegatee {
            Some(Error::InvalidDelegation)
        } else if self.delegatees[delegatee].total_delegated + value > Balance::MAX {
            Some(Error::BadState)
        } else {
            None
        }
    }

    /// Why `delegator` may not delegate `value` to `delegatee`, given the
    /// delegator's spendable balance and the smallest balance an account may
    /// hold. A value below that minimum is refused before anything else is
    /// looked at, then a value that the delegator cannot spend.
    pub open spec fn delegate_refusal(
        self,
        delegator: AccountId,
        delegatee: AccountId,
        value: Balance,
        delegator_balance: Balance,
        minimum_balance: Balance,
    ) -> Option<Error> {
        if value < minimum_balance {
            Some(Error::NotEnoughFunds)
        } else if delegator_balance < value {
            Some(Error::NotEnoughFunds)
        } else {
            self.delegation_refusal(delegator, delegatee, value)
        }
    }

    /// The ledger after `delegator` has delegated `value` more to
    /// `delegatee`. A delegation of nothing leaves no record behind.
    pub open spec fn delegate(
        self,
        delegator: AccountId,
        delegatee: AccountId,
        value: Balance,
    ) -> Ledger {
        if value == 0 {
            self
        } else {
            Ledger {
                delegators: self.delegators.insert(
                    delegator,
                    Delegation {
                        delegatee,
                        amount: (self.amount_of(delegator) + value) as Balance,
                    },
                ),
                delegatees: self.delegatees.insert(
                    delegatee,
                    DelegationRegister {
                        total_delegated: (self.delegatees[delegatee].total_delegated
                            + value) as Balance,
                        ..self.delegatees[delegatee]
                    },
                ),
            }
        }
    }

    /// Why `value` may not be taken out of what `delegator` has delegated
    /// to `delegatee`.
    pub open spec fn withdraw_refusal(
        self,
        delegator: AccountId,
        delegatee: AccountId,
        value: Balance,
    ) -> Option<Error> {
        if !self.delegators.contains_key(delegator) {
            Some(Error::NotDelegator)
        } else if self.delegators[delegator].delegatee != delegatee {
            Some(Error::NotDelegatee)
        } else if self.delegators[delegator].amount < value {
            Some(Error::NotEnoughFunds)
        } else if !self.delegatees.contains_key(delegatee) {
            Some(Error::NotDelegatee)
        } else {
            None
        }
    }

    /// The records after `value` has left the record of `delegator`; a
    /// record that reaches zero is removed.
    pub open spec fn reduced_records(
        self,
        delegator: AccountId,
        value: Balance,
    ) -> Map<AccountId, Delegation> {
        if self.delegators[delegator].amount == value {
            self.delegators.remove(delegator)
        } else {
            self.delegators.insert(
                delegator,
                Delegation {
                    amount: (self.delegators[delegator].amount - value) as Balance,
                    ..self.delegators[delegator]
                },
            )
        }
    }

    /// The ledger after `value` has been taken out of what `delegator` has
    /// delegated to `delegatee`.
    pub open spec fn withdraw(
        self,
        delegator: AccountId,
        delegatee: AccountId,
        value: Balance,
    ) -> Ledger {
        Ledger {
            delegators: self.reduced_records(delegator, value),
            delegatees: self.delegatees.insert(
                delegatee,
                DelegationRegister {
                    total_delegated: (self.delegatees[delegatee].total_delegated
                        - value) as Balance,
                    ..self.delegatees[delegatee]
                },
            ),
        }
    }

    /// Why a direct staker may not become a delegatee backed by the proxy
    /// delegator, given the proxy's spendable balance and what the backend
    /// says of the staker: only a nominator can be migrated.
    pub open spec fn migrate_accept_refusal(
        new_delegatee: AccountId,
        proxy_delegator: AccountId,
        proxy_balance: Balance,
        status: Result<StakerStatus, Refusal>,
    ) -> Option<Error> {
        if new_delegatee == proxy_delegator {
            Some(Error::InvalidDelegation)
        } else if proxy_balance == 0 {
            Some(Error::NotEnoughFunds)
        } else if status matches Ok(StakerStatus::Nominator(_)) {
            None
        } else {
            Some(Error::InvalidDelegation)
        }
    }

    /// Why a slice of a delegation to `delegatee` may not be moved to
    /// another delegator, before either delegator is looked at.
    pub open spec fn migrate_refusal(
        self,
        delegatee: AccountId,
        value: Balance,
        minimum_balance: Balance,
    ) -> Option<Error> {
        if value < minimum_balance {
            Some(Error::NotEnoughFunds)
        } else if !self.delegatees.contains_key(delegatee) {
            Some(Error::NotDelegatee)
        } else {
            None
        }
    }

    // ----- hold and slash -----

    /// Why the bonded amount of the registered delegatee `who` may not
    /// become `amount`.
    pub open spec fn hold_refusal(self, who: AccountId, amount: Balance) -> Option<Error> {
        if self.delegatees[who].total_delegated < amount {
            Some(Error::NotEnoughFunds)
        } else if self.delegatees[who].pending_slash > amount {
            Some(Error::UnappliedSlash)
        } else {
            None
        }
    }

    /// The ledger after the bonded amount of `who` has become `amount`.
    pub open spec fn set_hold(self, who: AccountId, amount: Balance) -> Ledger {
        Ledger {
            delegatees: self.delegatees.insert(who, self.delegatees[who].spec_update_hold(amount)),
            ..self
        }
    }

    /// The ledger after the backend has let go of the stake of `who`:
    /// nothing is bonded any more, and a register without delegations is
    /// cleared. An account without a register changes nothing.
    pub open spec fn release(self, who: AccountId) -> Ledger {
        if !self.delegatees.contains_key(who) {
            self
        } else if self.delegatees[who].total_delegated == 0 {
            self.kill(who)
        } else {
            self.set_hold(who, 0)
        }
    }

    /// Why a pending slash of `delegatee` may not be taken from
    /// `delegator`.
    pub open spec fn slash_refusal(
        self,
        delegatee: AccountId,
        delegator: AccountId,
        value: Balance,
    ) -> Option<Error> {
        if !self.delegatees.contains_key(delegatee) {
            Some(Error::NotDelegatee)
        } else if !self.delegators.contains_key(delegator) {
            Some(Error::NotDelegator)
        } else if self.delegators[delegator].delegatee != delegatee {
            Some(Error::NotDelegatee)
        } else if value > self.delegatees[delegatee].pending_slash {
            Some(Error::UnappliedSlash)
        } else if self.delegators[delegator].amount < value {
            Some(Error::NotEnoughFunds)
        } else if value > self.delegatees[delegatee].spec_unbonded_balance() {
            Some(Error::NotEnoughFunds)
        } else {
            None
        }
    }

    /// The ledger after `value` of the pending slash of `delegatee` has
    /// been taken from `delegator`.
    pub open spec fn slash(
        self,
        delegatee: AccountId,
        delegator: AccountId,
        value: Balance,
    ) -> Ledger {
        Ledger {
            delegators: self.reduced_records(delegator, value),
            delegatees: self.delegatees.insert(
                delegatee,
                DelegationRegister {
                    total_delegated: (self.delegatees[delegatee].total_delegated
                        - value) as Balance,
                    pending_slash: (self.delegatees[delegatee].pending_slash - value) as Balance,
                    ..self.delegatees[delegatee]
                },
            ),
        }
    }

    // ----- queries -----

    /// Balance of `who` that can be staked from delegations; zero for an
    /// account without a register.
    pub open spec fn delegated_balance(self, who: AccountId) -> Balance {
        if self.delegatees.contains_key(who) {
            self.delegatees[who].spec_delegated_balance()
        } else {
            0
        }
    }

    /// Balance delegated to `who` that is not bonded; zero for an account
    /// without a register.
    pub open spec fn unbonded_balance(self, who: AccountId) -> Balance {
        if self.delegatees.contains_key(who) {
            self.delegatees[who].spec_unbonded_balance()
        } else {
            0
        }
    }

    /// Whether `who` may not send its rewards to `reward_destination`: a
    /// delegatee must name its registered payee, anyone else is free.
    pub open spec fn restricts_reward_destination(
        self,
        who: AccountId,
        reward_destination: Option<AccountId>,
    ) -> bool {
        self.delegatees.contains_key(who) && reward_destination != Some(self.delegatees[who].payee)
    }

    /// How the stake of `who` is funded.
    pub open spec fn stake_type(self, who: AccountId) -> StakeBalanceType {
        if self.delegatees.contains_key(who) {
            StakeBalanceType::Delegated
        } else {
            StakeBalanceType::Direct
        }
    }

    // ----- the invariants hold of every step -----

    /// No record holds more than its delegatee's total.
    pub proof fn lemma_amount_within_total(self, delegator: AccountId)
        requires
            self.wf(),
            self.delegators.contains_key(delegator),
        ensures
            self.delegators[delegator].amount
                <= self.delegatees[self.delegators[delegator].delegatee].total_delegated,
    {
        lemma_share_within_total(self.delegators, delegator, self.delegators[delegator].delegatee);
    }

    /// Accepting delegations keeps both invariants.
    pub proof fn lemma_accept_wf(self, who: AccountId, reward_destination: AccountId)
        requires
            self.wf(),
        ensures
            self.accept(who, reward_destination).wf(),
            self.bounded() ==> self.accept(who, reward_destination).bounded(),
    {
        let next = self.accept(who, reward_destination);
        if !self.delegatees.contains_key(who) {
            lemma_unreferenced_total_is_zero(self.delegators, who);
        }
        assert forall|a: AccountId| #[trigger] next.delegators.contains_key(a) implies {
            &&& next.delegators[a].amount > 0
            &&& next.delegatees.contains_key(next.delegators[a].delegatee)
        } by {}
    }

    /// Blocking delegations keeps both invariants.
    pub proof fn lemma_block_wf(self, who: AccountId)
        requires
            self.wf(),
            self.delegatees.contains_key(who),
        ensures
            self.block(who).wf(),
            self.bounded() ==> self.block(who).bounded(),
    {
        let next = self.block(who);
        assert forall|a: AccountId| #[trigger] next.delegators.contains_key(a) implies {
            &&& next.delegators[a].amount > 0
            &&& next.delegatees.contains_key(next.delegators[a].delegatee)
        } by {}
    }

    /// Removing a register that holds nothing keeps both invariants.
    pub proof fn lemma_kill_wf(self, who: AccountId)
        requires
            self.wf(),
            self.delegatees.contains_key(who),
            self.delegatees[who].total_delegated == 0,
        ensures
            self.kill(who).wf(),
            self.bounded() ==> self.kill(who).bounded(),
    {
        let next = self.kill(who);
        assert forall|a: AccountId| #[trigger] next.delegators.contains_key(a) implies {
            &&& next.delegators[a].amount > 0
            &&& next.delegatees.contains_key(next.delegators[a].delegatee)
        } by {
            lemma_zero_total_has_no_delegator(self.delegators, a, who);
        }
    }

    /// A delegation that is not refused keeps both invariants, and the
    /// delegator's new amount fits.
    pub proof fn lemma_delegate_wf(self, delegator: AccountId, delegatee: AccountId, value: Balance)
        requires
            self.wf(),
            self.delegation_refusal(delegator, delegatee, value) is None,
        ensures
            self.amount_of(delegator) + value <= Balance::MAX,
            self.delegate(delegator, delegatee, value).wf(),
            self.bounded() ==> self.delegate(delegator, delegatee, value).bounded(),
    {
        let next = self.delegate(delegator, delegatee, value);
        if self.delegators.contains_key(delegator) {
            self.lemma_amount_within_total(delegator);
        }
        if value != 0 {
            let record = Delegation {
                delegatee,
                amount: (self.amount_of(delegator) + value) as Balance,
            };
            assert forall|a: AccountId| #[trigger] next.delegators.contains_key(a) implies {
                &&& next.delegators[a].amount > 0
                &&& next.delegatees.contains_key(next.delegators[a].delegatee)
            } by {}
            assert forall|d: AccountId| #[trigger]
                next.delegatees.contains_key(d) implies next.delegatees[d].total_delegated
                == delegated_to(next.delegators, d) by {
                lemma_delegated_to_insert(self.delegators, delegator, record, d);
            }
        }
    }

    /// Taking funds out of a record keeps the accounting invariant.
    proof fn lemma_reduce_wf(
        self,
        next: Ledger,
        delegator: AccountId,
        delegatee: AccountId,
        value: Balance,
    )
        requires
            self.wf(),
            self.withdraw_refusal(delegator, delegatee, value) is None,
            next.delegators == self.reduced_records(delegator, value),
            next.delegatees.dom() =~= self.delegatees.dom(),
            forall|d: AccountId| #[trigger]
                self.delegatees.contains_key(d) && d != delegatee ==> next.delegatees[d]
                    == self.delegatees[d],
            next.delegatees[delegatee].total_delegated + value
                == self.delegatees[delegatee].total_delegated,
        ensures
            next.wf(),
    {
        let record = Delegation {
            amount: (self.delegators[delegator].amount - value) as Balance,
            ..self.delegators[delegator]
        };
        assert forall|a: AccountId| #[trigger] next.delegators.contains_key(a) implies {
            &&& next.delegators[a].amount > 0
            &&& next.delegatees.contains_key(next.delegators[a].delegatee)
        } by {}
        assert forall|d: AccountId| #[trigger]
            next.delegatees.contains_key(d) implies next.delegatees[d].total_delegated
            == delegated_to(next.delegators, d) by {
            if self.delegators[delegator].amount == value {
                lemma_delegated_to_remove(self.delegators, delegator, d);
            } else {
                lemma_delegated_to_insert(self.delegators, delegator, record, d);
            }
        }
    }

    /// A withdrawal that is not refused keeps the accounting invariant. It
    /// keeps the bounds where `value` is within the delegatee's headroom.
    pub proof fn lemma_withdraw_wf(self, delegator: AccountId, delegatee: AccountId, value: Balance)
        requires
            self.wf(),
            self.withdraw_refusal(delegator, delegatee, value) is None,
        ensures
            value <= self.delegatees[delegatee].total_delegated,
            self.withdraw(delegator, delegatee, value).wf(),
            self.bounded() && value <= self.headroom(delegatee) ==> self.withdraw(
                delegator,
                delegatee,
                value,
            ).bounded(),
    {
        let next = self.withdraw(delegator, delegatee, value);
        self.lemma_amount_within_total(delegator);
        self.lemma_reduce_wf(next, delegator, delegatee, value);
    }

    /// A change of the bonded amount that is not refused keeps both
    /// invariants.
    pub proof fn lemma_set_hold_wf(self, who: AccountId, amount: Balance)
        requires
            self.wf(),
            self.delegatees.contains_key(who),
            self.hold_refusal(who, amount) is None,
        ensures
            self.set_hold(who, amount).wf(),
            self.bounded() ==> self.set_hold(who, amount).bounded(),
    {
        let next = self.set_hold(who, amount);
        assert forall|a: AccountId| #[trigger] next.delegators.contains_key(a) implies {
            &&& next.delegators[a].amount > 0
            &&& next.delegatees.contains_key(next.delegators[a].delegatee)
        } by {}
    }

    /// Moving a slice of a delegation from one delegator to another leaves
    /// every register as it was, and so keeps the bounds.
    pub proof fn lemma_migrate_keeps_registers(
        self,
        delegatee: AccountId,
        existing_delegator: AccountId,
        new_delegator: AccountId,
        value: Balance,
    )
        requires
            self.wf(),
            self.withdraw_refusal(existing_delegator, delegatee, value) is None,
        ensures
            self.withdraw(existing_delegator, delegatee, value).delegate(
                new_delegator,
                delegatee,
                value,
            ).delegatees == self.delegatees,
    {
        self.lemma_amount_within_total(existing_delegator);
    }

    /// Letting go of a stake keeps both invariants.
    pub proof fn lemma_release_wf(self, who: AccountId)
        requires
            self.wf(),
        ensures
            self.release(who).wf(),
            self.bounded() ==> self.release(who).bounded(),
    {
        if self.delegatees.contains_key(who) {
            if self.delegatees[who].total_delegated == 0 {
                self.lemma_kill_wf(who);
            } else {
                let next = self.set_hold(who, 0);
                assert forall|a: AccountId| #[trigger] next.delegators.contains_key(a) implies {
                    &&& next.delegators[a].amount > 0
                    &&& next.delegatees.contains_key(next.delegators[a].delegatee)
                } by {}
            }
        }
    }

    /// A slash that is not refused keeps both invariants.
    pub proof fn lemma_slash_wf(self, delegatee: AccountId, delegator: AccountId, value: Balance)
        requires
            self.wf(),
            self.slash_refusal(delegatee, delegator, value) is None,
        ensures
            value <= self.delegatees[delegatee].total_delegated,
            self.slash(delegatee, delegator, value).wf(),
            self.bounded() ==> self.slash(delegatee, delegator, value).bounded(),
    {
        let next = self.slash(delegatee, delegator, value);
        self.lemma_reduce_wf(next, delegator, delegatee, value);
    }
}

} // verus!
