//! The ledger itself: both stores and the two collaborators, and the
//! operations that keep them consistent.
//!
//! Every operation is atomic with respect to the stores: it either applies
//! all of its writes or, on any error, leaves both stores as they were.

use vstd::prelude::*;
use crate::collaborators::{Config, CoreStaking, Currency};
use crate::delegation::{delegated_to, Delegation};
use crate::ledger::Ledger;
use crate::register::DelegationRegister;
use crate::snapshot::{
    keys_distinct, lemma_listed_once, lemma_listed_twice, lemma_map_of_keys, lemma_map_of_step,
    lemma_record_unfit, lemma_register_unfit, lemma_tally_confirms, lemma_tally_of_nothing,
    lemma_tally_step, listed_ledger, lists, map_of, restorable, tallied,
};
use crate::store::{assign, lemma_assign_restores, lookup, DelegateeStore, DelegatorStore};
use crate::types::{
    AccountId, Balance, BondCommand, Error, HoldReason, Precision, Preservation, Refusal,
    StakeBalanceType, StakerStatus,
};

verus! {

/// The delegated-staking ledger over the collaborators of `T`.
pub struct Pallet<T: Config> {
    delegators: DelegatorStore,
    delegatees: DelegateeStore,
    currency: T::Currency,
    staking: T::CoreStaking,
}

impl<T: Config> View for Pallet<T> {
    type V = Ledger;

    closed spec fn view(&self) -> Ledger {
        Ledger { delegators: self.delegators@, delegatees: self.delegatees@ }
    }
}

/// `Err(e)` where `refusal` names an error, `Ok(())` where it names none.
pub open spec fn verdict(refusal: Option<Error>) -> Result<(), Error> {
    match refusal {
        Some(e) => Err(e),
        None => Ok(()),
    }
}

/// What becomes of a collaborator's answer: a refusal is reported as
/// `error`, anything else is passed on.
pub open spec fn failing_with<V>(outcome: Result<V, Refusal>, error: Error) -> Result<V, Error> {
    match outcome {
        Ok(v) => Ok(v),
        Err(_) => Err(error),
    }
}

/// What becomes of the currency's answer to a request to free or take
/// exactly `requested`: the books are broken where it refuses, and where
/// it names any other amount.
pub open spec fn settled(requested: Balance, outcome: Result<Balance, Refusal>) -> Result<
    (),
    Error,
> {
    if outcome == Ok::<Balance, Refusal>(requested) {
        Ok(())
    } else {
        Err(Error::BadState)
    }
}

/// Reports a collaborator's refusal as `error` and passes anything else
/// on.
pub fn or_fail_with<V>(outcome: Result<V, Refusal>, error: Error) -> (result: Result<V, Error>)
    ensures
        result == failing_with(outcome, error),
{
    match outcome {
        Ok(v) => Ok(v),
        Err(_) => Err(error),
    }
}

/// Judges the currency's answer to a request to free or take exactly
/// `requested`. Anything but the whole amount is fatal.
pub fn settle(requested: Balance, outcome: Result<Balance, Refusal>) -> (result: Result<(), Error>)
    ensures
        result == settled(requested, outcome),
{
    match outcome {
        Ok(amount) => if amount == requested {
            Ok(())
        } else {
            Err(Error::BadState)
        },
        Err(_) => Err(Error::BadState),
    }
}

impl<T: Config> Pallet<T> {
    /// The accounting invariant of the ledger holds of both stores.
    pub open spec fn wf(&self) -> bool {
        self@.wf()
    }

    /// The currency that this ledger talks to.
    pub closed spec fn spec_currency(&self) -> T::Currency {
        self.currency
    }

    /// The staking backend that this ledger talks to.
    pub closed spec fn spec_staking(&self) -> T::CoreStaking {
        self.staking
    }

    /// A ledger without delegators and delegatees over the given
    /// collaborators.
    pub fn new(currency: T::Currency, staking: T::CoreStaking) -> (pallet: Pallet<T>)
        ensures
            pallet@ == Ledger::empty(),
            pallet.wf(),
            pallet@.bounded(),
    {
        Pallet {
            delegators: DelegatorStore::new(),
            delegatees: DelegateeStore::new(),
            currency,
            staking,
        }
    }

    /// The ledger that the two listings describe, over the given
    /// collaborators. The listings are refused as `BadState` where a key is
    /// listed twice, a record holds nothing or points at an account without
    /// a register, or a register's total is not the sum of the records that
    /// point at it or is below its bonded amount or its pending slash.
    pub fn restore(
        currency: T::Currency,
        staking: T::CoreStaking,
        registers: &Vec<(AccountId, DelegationRegister)>,
        records: &Vec<(AccountId, Delegation)>,
    ) -> (result: Result<Pallet<T>, Error>)
        ensures
            result is Ok <==> restorable(registers@, records@),
            match result {
                Ok(pallet) => {
                    &&& pallet.wf()
                    &&& pallet@.bounded()
                    &&& pallet@ == listed_ledger(registers@, records@)
                },
                Err(e) => e == Error::BadState,
            },
    {
        let mut delegatees = DelegateeStore::new();
        let mut i: usize = 0;
        while i < registers.len()
            invariant
                0 <= i <= registers.len(),
                keys_distinct(registers@.take(i as int)),
                delegatees@ == tallied(
                    map_of(registers@.take(i as int)),
                    Map::<AccountId, Delegation>::empty(),
                ),
            decreases registers.len() - i,
        {
            let (delegatee, register) = registers[i];
            if delegatees.contains_key(delegatee) {
                proof {
                    lemma_listed_twice(registers@, i as int);
                }
                return Err(Error::BadState);
            }
            delegatees.insert(delegatee, DelegationRegister { total_delegated: 0, ..register });
            proof {
                lemma_listed_once(registers@, i as int);
                lemma_map_of_step(registers@, i as int);
            }
            i += 1;
        }
        let mut delegators = DelegatorStore::new();
        proof {
            assert(registers@.take(registers@.len() as int) =~= registers@);
            lemma_map_of_keys(registers@);
            lemma_tally_of_nothing(map_of(registers@));
        }
        let mut j: usize = 0;
        while j < records.len()
            invariant
                0 <= j <= records.len(),
                keys_distinct(registers@),
                keys_distinct(records@.take(j as int)),
                delegators@ == map_of(records@.take(j as int)),
                delegatees@ == tallied(map_of(registers@), delegators@),
                (Ledger { delegators: delegators@, delegatees: delegatees@ }).wf(),
            decreases records.len() - j,
        {
            let (delegator, record) = records[j];
            if delegators.contains_key(delegator) {
                proof {
                    lemma_listed_twice(records@, j as int);
                }
                return Err(Error::BadState);
            }
            proof {
                lemma_listed_once(records@, j as int);
                lemma_map_of_step(records@, j as int);
            }
            if record.amount == 0 {
                proof {
                    lemma_record_unfit(registers@, records@, j as int);
                }
                return Err(Error::BadState);
            }
            let register = match delegatees.get(record.delegatee) {
                None => {
                    proof {
                        lemma_record_unfit(registers@, records@, j as int);
                    }
                    return Err(Error::BadState);
                },
                Some(register) => register,
            };
            proof {
                lemma_tally_step(map_of(registers@), delegators@, delegator, record);
            }
            if record.amount > Balance::MAX - register.total_delegated {
                proof {
                    lemma_record_unfit(registers@, records@, j as int);
                }
                return Err(Error::BadState);
            }
            delegators.insert(delegator, record);
            delegatees.insert(
                record.delegatee,
                DelegationRegister {
                    total_delegated: register.total_delegated + record.amount,
                    ..register
                },
            );
            j += 1;
        }
        proof {
            assert(records@.take(records@.len() as int) =~= records@);
        }
        let mut k: usize = 0;
        while k < registers.len()
            invariant
                0 <= k <= registers.len(),
                keys_distinct(registers@),
                keys_distinct(records@),
                delegators@ == map_of(records@),
                delegatees@ == tallied(map_of(registers@), delegators@),
                (Ledger { delegators: delegators@, delegatees: delegatees@ }).wf(),
                forall|n: int|
                    0 <= n < k ==> {
                        &&& (#[trigger] registers@[n]).1.total_delegated == delegated_to(
                            delegators@,
                            registers@[n].0,
                        )
                        &&& registers@[n].1.bounded()
                    },
            decreases registers.len() - k,
        {
            let (delegatee, register) = registers[k];
            proof {
                lemma_map_of_keys(registers@);
            }
            let tally = delegatees.get(delegatee).unwrap();
            if tally.total_delegated != register.total_delegated || register.hold
                > register.total_delegated || register.pending_slash > register.total_delegated {
                proof {
                    lemma_register_unfit(registers@, records@, k as int);
                }
                return Err(Error::BadState);
            }
            k += 1;
        }
        proof {
            lemma_tally_confirms(registers@, delegators@);
        }
        Ok(Pallet { delegators, delegatees, currency, staking })
    }

    /// The currency that owns balances and holds.
    pub fn currency(&self) -> (currency: &T::Currency)
        ensures
            *currency == self.spec_currency(),
    {
        &self.currency
    }

    /// The currency, to prepare or inspect it between operations. What is
    /// done to it through the reference is done to the ledger's currency;
    /// the stores and the staking backend stay as they are.
    pub fn currency_mut(&mut self) -> (currency: &mut T::Currency)
        ensures
            *currency == old(self).spec_currency(),
            final(self).spec_currency() == *final(currency),
            final(self).spec_staking() == old(self).spec_staking(),
            final(self)@ == old(self)@,
    {
        &mut self.currency
    }

    /// The staking backend that owns the bonded stake.
    pub fn staking(&self) -> (staking: &T::CoreStaking)
        ensures
            *staking == self.spec_staking(),
    {
        &self.staking
    }

    /// The staking backend, to prepare or inspect it between operations.
    /// What is done to it through the reference is done to the ledger's
    /// backend; the stores and the currency stay as they are.
    pub fn staking_mut(&mut self) -> (staking: &mut T::CoreStaking)
        ensures
            *staking == old(self).spec_staking(),
            final(self).spec_staking() == *final(staking),
            final(self).spec_currency() == old(self).spec_currency(),
            final(self)@ == old(self)@,
    {
        &mut self.staking
    }

    /// The record of `delegator`, if it has delegated.
    pub fn delegation(&self, delegator: AccountId) -> (record: Option<Delegation>)
        ensures
            record == lookup(self@.delegators, delegator),
    {
        self.delegators.get(delegator)
    }

    /// The register of `delegatee`, if it accepts delegations.
    pub fn register(&self, delegatee: AccountId) -> (register: Option<DelegationRegister>)
        ensures
            register == lookup(self@.delegatees, delegatee),
    {
        self.delegatees.get(delegatee)
    }

    /// Whether `who` has a register.
    pub fn is_delegatee(&self, who: AccountId) -> (found: bool)
        ensures
            found == self@.is_delegatee(who),
    {
        self.delegatees.contains_key(who)
    }

    /// Decides whether `who` may start to accept delegations, given
    /// whether the backend knows it as a staker.
    pub fn check_accept_delegations(
        &self,
        who: AccountId,
        reward_destination: AccountId,
        is_staker: bool,
    ) -> (result: Result<(), Error>)
        ensures
            result == verdict(self@.accept_refusal(who, reward_destination, is_staker)),
    {
        if is_staker && !self.delegatees.contains_key(who) {
            Err(Error::AlreadyStaker)
        } else if reward_destination == who {
            Err(Error::InvalidRewardDestination)
        } else {
            Ok(())
        }
    }

    /// Registers `who` as a delegatee whose rewards go to
    /// `reward_destination`. An account that stakes its own funds with the
    /// backend is refused, and so is one that names itself as destination.
    /// An existing register is unblocked and gets the new destination.
    pub fn accept_delegations(&mut self, who: AccountId, reward_destination: AccountId) -> (result:
        Result<(), Error>)
        requires
            old(self).wf(),
        ensures
            final(self).wf(),
            old(self)@.bounded() ==> final(self)@.bounded(),
            old(self)@.is_delegatee(who) ==> result == verdict(
                old(self)@.accept_refusal(who, reward_destination, false),
            ),
            match result {
                Ok(()) => {
                    &&& reward_destination != who
                    &&& final(self)@ == old(self)@.accept(who, reward_destination)
                },
                Err(e) => {
                    &&& final(self)@ == old(self)@
                    &&& e == Error::AlreadyStaker || e == Error::InvalidRewardDestination
                    &&& e == Error::InvalidRewardDestination ==> reward_destination == who
                    &&& e == Error::AlreadyStaker ==> !old(self)@.is_delegatee(who)
                },
            },
    {
        let is_staker = self.staking.status(who).is_ok();
        match self.check_accept_delegations(who, reward_destination, is_staker) {
            Err(e) => Err(e),
            Ok(()) => {
                let register = match self.delegatees.get(who) {
                    Some(existing) => DelegationRegister {
                        payee: reward_destination,
                        blocked: false,
                        ..existing
                    },
                    None => DelegationRegister::new(reward_destination),
                };
                proof {
                    self@.lemma_accept_wf(who, reward_destination);
                }
                self.delegatees.insert(who, register);
                Ok(())
            },
        }
    }

    /// Stops `delegatee` from receiving new delegations. Existing
    /// delegations stay as they are.
    pub fn block_delegations(&mut self, delegatee: AccountId) -> (result: Result<(), Error>)
        requires
            old(self).wf(),
        ensures
            final(self).wf(),
            old(self)@.bounded() ==> final(self)@.bounded(),
            result is Ok <==> old(self)@.is_delegatee(delegatee),
            match result {
                Ok(()) => final(self)@ == old(self)@.block(delegatee),
                Err(e) => e == Error::NotDelegatee && final(self)@ == old(self)@,
            },
    {
        match self.delegatees.get(delegatee) {
            Some(register) => {
                proof {
                    self@.lemma_block_wf(delegatee);
                }
                self.delegatees.insert(delegatee, DelegationRegister { blocked: true, ..register });
                Ok(())
            },
            None => Err(Error::NotDelegatee),
        }
    }

    /// Removes the register of `delegatee`. Only a register to which
    /// nothing is delegated and for which nothing is bonded can go.
    pub fn kill_delegatee(&mut self, delegatee: AccountId) -> (result: Result<(), Error>)
        requires
            old(self).wf(),
        ensures
            final(self).wf(),
            old(self)@.bounded() ==> final(self)@.bounded(),
            result == verdict(old(self)@.kill_refusal(delegatee)),
            final(self)@ == if result is Ok {
                old(self)@.kill(delegatee)
            } else {
                old(self)@
            },
    {
        match self.delegatees.get(delegatee) {
            None => Err(Error::NotDelegatee),
            Some(register) => {
                if register.total_delegated != 0 || register.hold != 0 {
                    Err(Error::NotAllowed)
                } else {
                    proof {
                        self@.lemma_kill_wf(delegatee);
                    }
                    self.delegatees.remove(delegatee);
                    Ok(())
                }
            },
        }
    }

    /// Decides what the backend is asked to bond for `who`, given whether
    /// it already holds a stake for that account.
    pub fn bond_command(&self, who: AccountId, has_stake: bool) -> (command: Result<
        Option<BondCommand>,
        Error,
    >)
        ensures
            command == self@.bond_command(who, has_stake),
    {
        match self.delegatees.get(who) {
            None => Err(Error::NotDelegatee),
            Some(register) => {
                let amount = register.unbonded_balance();
                if amount == 0 {
                    Ok(None)
                } else if has_stake {
                    Ok(Some(BondCommand::BondExtra { who, amount }))
                } else {
                    Ok(Some(BondCommand::Bond { who, amount, payee: register.payee }))
                }
            },
        }
    }

    /// Bonds with the backend whatever is delegated to `who` and not
    /// bonded yet: on top of an existing stake, or as a first bond that pays
    /// rewards to the registered payee. Where nothing is left to bond, the
    /// backend is not asked for anything. A refusal of the backend is
    /// reported as `NotAllowed`. The stores are never written: the backend
    /// reports the new bonded amount through `update_hold`.
    pub fn update_bond(&mut self, who: AccountId) -> (result: Result<(), Error>)
        ensures
            final(self)@ == old(self)@,
            !old(self)@.is_delegatee(who) ==> result == Err::<(), Error>(Error::NotDelegatee),
            old(self)@.is_delegatee(who) ==> result == Ok::<(), Error>(()) || result == Err::<
                (),
                Error,
            >(Error::NotAllowed),
            old(self)@.is_delegatee(who) && old(self)@.unbonded_balance(who) == 0 ==> result
                == Ok::<(), Error>(()),
    {
        if !self.delegatees.contains_key(who) {
            return Err(Error::NotDelegatee);
        }
        let has_stake = self.staking.stake(who).is_ok();
        match self.bond_command(who, has_stake) {
            Err(e) => Err(e),
            Ok(None) => Ok(()),
            Ok(Some(BondCommand::BondExtra { who, amount })) => or_fail_with(
                self.staking.bond_extra(who, amount),
                Error::NotAllowed,
            ),
            Ok(Some(BondCommand::Bond { who, amount, payee })) => or_fail_with(
                self.staking.bond(who, amount, payee),
                Error::NotAllowed,
            ),
        }
    }

    /// Asks the backend to unbond `value` of the stake of `delegatee`; its
    /// refusal is reported as `NotAllowed`. Neither store is touched.
    pub fn unbond(&mut self, delegatee: AccountId, value: Balance) -> (result: Result<(), Error>)
        ensures
            final(self)@ == old(self)@,
            result == Ok::<(), Error>(()) || result == Err::<(), Error>(Error::NotAllowed),
    {
        or_fail_with(self.staking.unbond(delegatee, value), Error::NotAllowed)
    }

    /// Sets the bonded amount of `who` to `amount`. For an account without
    /// a register the request goes to the backend as it is, and a refusal
    /// is reported as `NotAllowed`. For a delegatee, `amount` must be
    /// covered by what is delegated and must cover the pending slash.
    pub fn update_hold(&mut self, who: AccountId, amount: Balance) -> (result: Result<(), Error>)
        requires
            old(self).wf(),
        ensures
            final(self).wf(),
            old(self)@.bounded() ==> final(self)@.bounded(),
            old(self)@.is_delegatee(who) ==> result == verdict(old(self)@.hold_refusal(who, amount)),
            !old(self)@.is_delegatee(who) ==> result == Ok::<(), Error>(()) || result == Err::<
                (),
                Error,
            >(Error::NotAllowed),
            final(self)@ == if old(self)@.is_delegatee(who) && result is Ok {
                old(self)@.set_hold(who, amount)
            } else {
                old(self)@
            },
    {
        match self.delegatees.get(who) {
            None => or_fail_with(self.staking.update_hold(who, amount), Error::NotAllowed),
            Some(register) => {
                if register.total_delegated < amount {
                    Err(Error::NotEnoughFunds)
                } else if register.pending_slash > amount {
                    Err(Error::UnappliedSlash)
                } else {
                    proof {
                        self@.lemma_set_hold_wf(who, amount);
                    }
                    self.delegatees.insert(who, register.update_hold(amount));
                    Ok(())
                }
            },
        }
    }

    /// Lets go of the stake of `who`. For an account without a register
    /// the request goes to the backend. For a delegatee, nothing stays
    /// bonded, and a register to which nothing is delegated is cleared.
    pub fn release(&mut self, who: AccountId)
        requires
            old(self).wf(),
        ensures
            final(self).wf(),
            old(self)@.bounded() ==> final(self)@.bounded(),
            final(self)@ == old(self)@.release(who),
    {
        proof {
            self@.lemma_release_wf(who);
        }
        match self.delegatees.get(who) {
            None => {
                self.staking.release(who);
            },
            Some(register) => {
                if register.total_delegated == 0 {
                    self.delegatees.remove(who);
                } else {
                    self.delegatees.insert(who, register.update_hold(0));
                }
            },
        }
    }

    /// Balance of `who` that can be staked from delegations; zero for an
    /// account without a register.
    pub fn delegated_balance(&self, who: AccountId) -> (balance: Balance)
        ensures
            balance == self@.delegated_balance(who),
    {
        match self.delegatees.get(who) {
            Some(register) => register.delegated_balance(),
            None => 0,
        }
    }

    /// Balance delegated to `who` that is not bonded; zero for an account
    /// without a register.
    pub fn unbonded_balance(&self, who: AccountId) -> (balance: Balance)
        ensures
            balance == self@.unbonded_balance(who),
    {
        match self.delegatees.get(who) {
            Some(register) => register.unbonded_balance(),
            None => 0,
        }
    }

    /// What `who` can stake: for a delegatee the delegated funds less the
    /// pending slash, for anyone else what the currency lets it spend.
    pub fn stakeable_balance(&self, who: AccountId) -> (balance: Balance)
        ensures
            self@.is_delegatee(who) ==> balance == self@.delegated_balance(who),
    {
        match self.delegatees.get(who) {
            Some(register) => register.delegated_balance(),
            None => self.currency.reducible_balance(who),
        }
    }

    /// Whether `who` may not send its rewards to `reward_destination`. A
    /// delegatee is held to its registered payee; an account without a
    /// register is never restricted.
    pub fn restrict_reward_destination(
        &self,
        who: AccountId,
        reward_destination: Option<AccountId>,
    ) -> (restricted: bool)
        ensures
            restricted == self@.restricts_reward_destination(who, reward_destination),
    {
        match self.delegatees.get(who) {
            None => false,
            Some(register) => match reward_destination {
                None => true,
                Some(destination) => register.payee != destination,
            },
        }
    }

    /// How the stake of `who` is funded.
    pub fn stake_type(&self, who: AccountId) -> (kind: StakeBalanceType)
        ensures
            kind == self@.stake_type(who),
    {
        if self.delegatees.contains_key(who) {
            StakeBalanceType::Delegated
        } else {
            StakeBalanceType::Direct
        }
    }

    /// Decides whether `delegator` may delegate `value` to `delegatee`,
    /// given the delegator's spendable balance and the smallest balance an
    /// account may hold.
    pub fn check_delegate(
        &self,
        delegator: AccountId,
        delegatee: AccountId,
        value: Balance,
        delegator_balance: Balance,
        minimum_balance: Balance,
    ) -> (result: Result<(), Error>)
        ensures
            result == verdict(
                self@.delegate_refusal(
                    delegator,
                    delegatee,
                    value,
                    delegator_balance,
                    minimum_balance,
                ),
            ),
            value < minimum_balance ==> result == Err::<(), Error>(Error::NotEnoughFunds),
    {
        if value < minimum_balance {
            return Err(Error::NotEnoughFunds);
        }
        if delegator_balance < value {
            return Err(Error::NotEnoughFunds);
        }
        if delegatee == delegator {
            return Err(Error::InvalidDelegation);
        }
        let register = match self.delegatees.get(delegatee) {
            None => {
                return Err(Error::NotDelegatee);
            },
            Some(register) => register,
        };
        if register.blocked {
            return Err(Error::InvalidDelegation);
        }
        if self.delegatees.contains_key(delegator) {
            return Err(Error::InvalidDelegation);
        }
        match self.delegators.get(delegator) {
            Some(record) => {
                if record.delegatee != delegatee {
                    return Err(Error::InvalidDelegation);
                }
            },
            None => {},
        }
        if value > Balance::MAX - register.total_delegated {
            return Err(Error::BadState);
        }
        Ok(())
    }

    /// Delegates `value` of the funds of `delegator` to `delegatee`: the
    /// delegator's record and the delegatee's total grow by `value`, and the
    /// currency earmarks as much of the delegator's funds. A currency that
    /// refuses to earmark them is reported as `NotEnoughFunds`. Where
    /// anything is refused, both stores stay as they were.
    pub fn delegate(&mut self, delegator: AccountId, delegatee: AccountId, value: Balance) -> (result:
        Result<(), Error>)
        requires
            old(self).wf(),
        ensures
            final(self).wf(),
            old(self)@.bounded() ==> final(self)@.bounded(),
            match result {
                Ok(()) => {
                    &&& old(self)@.delegation_refusal(delegator, delegatee, value) is None
                    &&& final(self)@ == old(self)@.delegate(delegator, delegatee, value)
                },
                Err(e) => {
                    &&& final(self)@ == old(self)@
                    &&& e == Error::NotEnoughFunds || old(self)@.delegation_refusal(
                        delegator,
                        delegatee,
                        value,
                    ) == Some(e)
                },
            },
    {
        let delegator_balance = self.currency.reducible_balance(delegator);
        let minimum_balance = self.currency.minimum_balance();
        match self.check_delegate(delegator, delegatee, value, delegator_balance, minimum_balance) {
            Err(e) => {
                return Err(e);
            },
            Ok(()) => {},
        }
        let held = self.currency.hold(HoldReason::Delegating, delegator, value);
        match or_fail_with(held, Error::NotEnoughFunds) {
            Err(e) => {
                return Err(e);
            },
            Ok(()) => {},
        }
        proof {
            self@.lemma_delegate_wf(delegator, delegatee, value);
        }
        if value != 0 {
            let register = self.delegatees.get(delegatee).unwrap();
            let current: Balance = match self.delegators.get(delegator) {
                Some(record) => record.amount,
                None => 0,
            };
            self.delegators.insert(delegator, Delegation { delegatee, amount: current + value });
            self.delegatees.insert(
                delegatee,
                DelegationRegister { total_delegated: register.total_delegated + value, ..register },
            );
        }
        Ok(())
    }

    /// Decides whether `value` may be taken out of what `delegator` has
    /// delegated to `delegatee`.
    pub fn check_delegation_withdraw(
        &self,
        delegator: AccountId,
        delegatee: AccountId,
        value: Balance,
    ) -> (result: Result<(), Error>)
        ensures
            result == verdict(self@.withdraw_refusal(delegator, delegatee, value)),
    {
        match self.delegators.get(delegator) {
            None => Err(Error::NotDelegator),
            Some(record) => {
                if record.delegatee != delegatee {
                    Err(Error::NotDelegatee)
                } else if record.amount < value {
                    Err(Error::NotEnoughFunds)
                } else if !self.delegatees.contains_key(delegatee) {
                    Err(Error::NotDelegatee)
                } else {
                    Ok(())
                }
            },
        }
    }

    /// Takes `value` out of what `delegator` has delegated to `delegatee`:
    /// the record shrinks by `value` and goes where it reaches zero, the
    /// delegatee's total shrinks by `value`, and the currency frees as much
    /// of the delegator's earmarked funds. The currency must free exactly
    /// `value`; anything else is reported as `BadState`. On any error both
    /// stores stay as they were.
    ///
    /// The bounds of the delegatee's register survive where `value` is
    /// within its headroom; the bonded amount is the backend's to lower
    /// first.
    pub fn delegation_withdraw(
        &mut self,
        delegator: AccountId,
        delegatee: AccountId,
        value: Balance,
    ) -> (result: Result<(), Error>)
        requires
            old(self).wf(),
        ensures
            final(self).wf(),
            old(self)@.bounded() && (result is Ok ==> value <= old(self)@.headroom(delegatee))
                ==> final(self)@.bounded(),
            old(self)@.withdraw_refusal(delegator, delegatee, value) matches Some(e) ==> result
                == Err::<(), Error>(e),
            match result {
                Ok(()) => {
                    &&& old(self)@.withdraw_refusal(delegator, delegatee, value) is None
                    &&& final(self)@ == old(self)@.withdraw(delegator, delegatee, value)
                },
                Err(e) => {
                    &&& final(self)@ == old(self)@
                    &&& e == Error::BadState || old(self)@.withdraw_refusal(
                        delegator,
                        delegatee,
                        value,
                    ) == Some(e)
                },
            },
    {
        match self.check_delegation_withdraw(delegator, delegatee, value) {
            Err(e) => {
                return Err(e);
            },
            Ok(()) => {},
        }
        let released = self.currency.release(
            HoldReason::Delegating,
            delegator,
            value,
            Precision::BestEffort,
        );
        match settle(value, released) {
            Err(e) => {
                return Err(e);
            },
            Ok(()) => {},
        }
        proof {
            self@.lemma_withdraw_wf(delegator, delegatee, value);
        }
        let record = self.delegators.get(delegator).unwrap();
        let register = self.delegatees.get(delegatee).unwrap();
        if record.amount == value {
            self.delegators.remove(delegator);
        } else {
            self.delegators.insert(delegator, Delegation { amount: record.amount - value, ..record });
        }
        self.delegatees.insert(
            delegatee,
            DelegationRegister { total_delegated: register.total_delegated - value, ..register },
        );
        Ok(())
    }

    /// Withdraws `value` of the funds that `delegator` has delegated to
    /// `delegatee`. The backend is first asked to let go of exactly `value`
    /// of the delegatee's unbonded stake; its refusal is reported as
    /// `WithdrawFailed` before either store is looked at. Then the
    /// delegation is reduced as in `delegation_withdraw`. Whether the
    /// backend emptied the stash changes nothing here: a register is cleared
    /// through `release` or `kill_delegatee`.
    pub fn withdraw(
        &mut self,
        delegator: AccountId,
        delegatee: AccountId,
        value: Balance,
        num_slashing_spans: u32,
    ) -> (result: Result<(), Error>)
        requires
            old(self).wf(),
        ensures
            final(self).wf(),
            old(self)@.bounded() && (result is Ok ==> value <= old(self)@.headroom(delegatee))
                ==> final(self)@.bounded(),
            match result {
                Ok(()) => {
                    &&& old(self)@.withdraw_refusal(delegator, delegatee, value) is None
                    &&& final(self)@ == old(self)@.withdraw(delegator, delegatee, value)
                },
                Err(e) => {
                    &&& final(self)@ == old(self)@
                    &&& e == Error::WithdrawFailed || e == Error::BadState
                        || old(self)@.withdraw_refusal(delegator, delegatee, value) == Some(e)
                },
            },
    {
        let outcome = self.staking.withdraw_exact(delegatee, value, num_slashing_spans);
        match or_fail_with(outcome, Error::WithdrawFailed) {
            Err(e) => Err(e),
            Ok(_stash_killed) => self.delegation_withdraw(delegator, delegatee, value),
        }
    }

    /// Puts back what the stores held under one delegator and one
    /// delegatee.
    fn roll_back(
        &mut self,
        delegator: AccountId,
        record: Option<Delegation>,
        delegatee: AccountId,
        register: Option<DelegationRegister>,
    )
        ensures
            final(self)@.delegators == assign(old(self)@.delegators, delegator, record),
            final(self)@.delegatees == assign(old(self)@.delegatees, delegatee, register),
    {
        self.delegators.assign(delegator, record);
        self.delegatees.assign(delegatee, register);
    }

    /// Decides whether a slice of `value` of a delegation to `delegatee`
    /// may be moved at all, given the smallest balance an account may hold.
    pub fn check_migrate_delegator(
        &self,
        delegatee: AccountId,
        value: Balance,
        minimum_balance: Balance,
    ) -> (result: Result<(), Error>)
        ensures
            result == verdict(self@.migrate_refusal(delegatee, value, minimum_balance)),
    {
        if value < minimum_balance {
            Err(Error::NotEnoughFunds)
        } else if !self.delegatees.contains_key(delegatee) {
            Err(Error::NotDelegatee)
        } else {
            Ok(())
        }
    }

    /// Moves `value` of what `existing_delegator` has delegated to
    /// `delegatee` over to `new_delegator`: the slice is withdrawn from the
    /// one, the freed funds are transferred, and the other delegates them
    /// again. A failed transfer is reported as `BadState`. On any error both
    /// stores stay as they were.
    pub fn migrate_delegator(
        &mut self,
        delegatee: AccountId,
        existing_delegator: AccountId,
        new_delegator: AccountId,
        value: Balance,
    ) -> (result: Result<(), Error>)
        requires
            old(self).wf(),
        ensures
            final(self).wf(),
            old(self)@.bounded() ==> final(self)@.bounded(),
            !old(self)@.is_delegatee(delegatee) ==> result == Err::<(), Error>(
                Error::NotEnoughFunds,
            ) || result == Err::<(), Error>(Error::NotDelegatee),
            match result {
                Ok(()) => {
                    &&& old(self)@.withdraw_refusal(existing_delegator, delegatee, value) is None
                    &&& old(self)@.withdraw(existing_delegator, delegatee, value).delegation_refusal(
                        new_delegator,
                        delegatee,
                        value,
                    ) is None
                    &&& final(self)@ == old(self)@.withdraw(
                        existing_delegator,
                        delegatee,
                        value,
                    ).delegate(new_delegator, delegatee, value)
                },
                Err(e) => {
                    &&& final(self)@ == old(self)@
                    &&& {
                        ||| e == Error::NotEnoughFunds
                        ||| e == Error::BadState
                        ||| e == Error::NotDelegatee && !old(self)@.is_delegatee(delegatee)
                        ||| old(self)@.withdraw_refusal(existing_delegator, delegatee, value)
                            == Some(e)
                        ||| old(self)@.withdraw(
                            existing_delegator,
                            delegatee,
                            value,
                        ).delegation_refusal(new_delegator, delegatee, value) == Some(e)
                    }
                },
            },
    {
        let minimum_balance = self.currency.minimum_balance();
        match self.check_migrate_delegator(delegatee, value, minimum_balance) {
            Err(e) => {
                return Err(e);
            },
            Ok(()) => {},
        }
        let record = self.delegators.get(existing_delegator);
        let register = self.delegatees.get(delegatee);
        match self.delegation_withdraw(existing_delegator, delegatee, value) {
            Err(e) => {
                return Err(e);
            },
            Ok(()) => {},
        }
        proof {
            lemma_assign_restores(old(self)@.delegators, self@.delegators, existing_delegator);
            lemma_assign_restores(old(self)@.delegatees, self@.delegatees, delegatee);
            old(self)@.lemma_migrate_keeps_registers(
                delegatee,
                existing_delegator,
                new_delegator,
                value,
            );
        }
        let moved = self.currency.transfer(
            existing_delegator,
            new_delegator,
            value,
            Preservation::Expendable,
        );
        match or_fail_with(moved, Error::BadState) {
            Err(e) => {
                self.roll_back(existing_delegator, record, delegatee, register);
                return Err(e);
            },
            Ok(()) => {},
        }
        match self.delegate(new_delegator, delegatee, value) {
            Err(e) => {
                self.roll_back(existing_delegator, record, delegatee, register);
                Err(e)
            },
            Ok(()) => Ok(()),
        }
    }

    /// Decides whether the direct staker `new_delegatee` may become a
    /// delegatee backed by `proxy_delegator`, given the proxy's spendable
    /// balance and what the backend says of the staker.
    pub fn check_migrate_accept_delegations(
        new_delegatee: AccountId,
        proxy_delegator: AccountId,
        proxy_balance: Balance,
        status: &Result<StakerStatus, Refusal>,
    ) -> (result: Result<(), Error>)
        ensures
            result == verdict(
                Ledger::migrate_accept_refusal(
                    new_delegatee,
                    proxy_delegator,
                    proxy_balance,
                    *status,
                ),
            ),
    {
        if new_delegatee == proxy_delegator {
            Err(Error::InvalidDelegation)
        } else if proxy_balance == 0 {
            Err(Error::NotEnoughFunds)
        } else {
            match status {
                Ok(StakerStatus::Nominator(_)) => Ok(()),
                _ => Err(Error::InvalidDelegation),
            }
        }
    }

    /// Turns the nominator `new_delegatee` into a delegatee whose whole
    /// stake is delegated to it by `proxy_delegator`: the backend unlocks
    /// the stake, the currency moves it to the proxy, `new_delegatee` is
    /// registered with `payee`, and the proxy delegates the amount back. A
    /// backend that knows the nominator but not its stake, or a currency
    /// that does not move the stake, is reported as `BadState`, a backend
    /// that does not unlock as `NotAllowed`. On any error both stores stay
    /// as they were.
    pub fn migrate_accept_delegations(
        &mut self,
        new_delegatee: AccountId,
        proxy_delegator: AccountId,
        payee: AccountId,
    ) -> (result: Result<(), Error>)
        requires
            old(self).wf(),
        ensures
            final(self).wf(),
            old(self)@.bounded() ==> final(self)@.bounded(),
            new_delegatee == proxy_delegator ==> result == Err::<(), Error>(
                Error::InvalidDelegation,
            ),
            match result {
                Ok(()) => {
                    &&& payee != new_delegatee
                    &&& exists|total: Balance|
                        {
                            &&& old(self)@.accept(new_delegatee, payee).delegation_refusal(
                                proxy_delegator,
                                new_delegatee,
                                total,
                            ) is None
                            &&& final(self)@ == #[trigger] old(self)@.accept(
                                new_delegatee,
                                payee,
                            ).delegate(proxy_delegator, new_delegatee, total)
                        }
                },
                Err(e) => {
                    &&& final(self)@ == old(self)@
                    &&& e != Error::NotDelegatee
                    &&& e != Error::NotDelegator
                    &&& e != Error::UnappliedSlash
                    &&& e != Error::WithdrawFailed
                },
            },
    {
        let proxy_balance = self.currency.reducible_balance(proxy_delegator);
        let status = self.staking.status(new_delegatee);
        match Self::check_migrate_accept_delegations(
            new_delegatee,
            proxy_delegator,
            proxy_balance,
            &status,
        ) {
            Err(e) => {
                return Err(e);
            },
            Ok(()) => {},
        }
        let stake = match or_fail_with(self.staking.stake(new_delegatee), Error::BadState) {
            Err(e) => {
                return Err(e);
            },
            Ok(stake) => stake,
        };
        match or_fail_with(self.staking.force_unlock(new_delegatee), Error::NotAllowed) {
            Err(e) => {
                return Err(e);
            },
            Ok(()) => {},
        }
        let moved = self.currency.transfer(
            new_delegatee,
            proxy_delegator,
            stake.total,
            Preservation::Expendable,
        );
        match or_fail_with(moved, Error::BadState) {
            Err(e) => {
                return Err(e);
            },
            Ok(()) => {},
        }
        let register = self.delegatees.get(new_delegatee);
        match self.accept_delegations(new_delegatee, payee) {
            Err(e) => {
                return Err(e);
            },
            Ok(()) => {},
        }
        proof {
            lemma_assign_restores(old(self)@.delegatees, self@.delegatees, new_delegatee);
        }
        match self.delegate(proxy_delegator, new_delegatee, stake.total) {
            Err(e) => {
                self.delegatees.assign(new_delegatee, register);
                Err(e)
            },
            Ok(()) => Ok(()),
        }
    }

    /// Decides whether `value` of the pending slash of `delegatee` may be
    /// taken from `delegator`.
    pub fn check_apply_slash(&self, delegatee: AccountId, delegator: AccountId, value: Balance) -> (result:
        Result<(), Error>)
        ensures
            result == verdict(self@.slash_refusal(delegatee, delegator, value)),
    {
        let register = match self.delegatees.get(delegatee) {
            None => {
                return Err(Error::NotDelegatee);
            },
            Some(register) => register,
        };
        match self.delegators.get(delegator) {
            None => Err(Error::NotDelegator),
            Some(record) => {
                if record.delegatee != delegatee {
                    Err(Error::NotDelegatee)
                } else if value > register.pending_slash {
                    Err(Error::UnappliedSlash)
                } else if record.amount < value {
                    Err(Error::NotEnoughFunds)
                } else if value > register.unbonded_balance() {
                    Err(Error::NotEnoughFunds)
                } else {
                    Ok(())
                }
            },
        }
    }

    /// Takes `value` of the pending slash of `delegatee` from the funds
    /// that `delegator` has delegated to it: the currency takes the amount
    /// out of the delegator's earmarked funds, to the benefit of `reporter`
    /// where one is named, and the delegator's record, the delegatee's total
    /// and its pending slash shrink by `value`. No more than the pending
    /// slash can be taken, and no more than is delegated and not bonded. The
    /// currency must take exactly `value`; anything else is reported as
    /// `BadState`. On any error both stores stay as they were.
    pub fn apply_slash(
        &mut self,
        delegatee: AccountId,
        delegator: AccountId,
        value: Balance,
        reporter: Option<AccountId>,
    ) -> (result: Result<(), Error>)
        requires
            old(self).wf(),
        ensures
            final(self).wf(),
            old(self)@.bounded() ==> final(self)@.bounded(),
            old(self)@.slash_refusal(delegatee, delegator, value) matches Some(e) ==> result
                == Err::<(), Error>(e),
            match result {
                Ok(()) => {
                    &&& old(self)@.slash_refusal(delegatee, delegator, value) is None
                    &&& final(self)@ == old(self)@.slash(delegatee, delegator, value)
                },
                Err(e) => {
                    &&& final(self)@ == old(self)@
                    &&& e == Error::BadState || old(self)@.slash_refusal(
                        delegatee,
                        delegator,
                        value,
                    ) == Some(e)
                },
            },
    {
        match self.check_apply_slash(delegatee, delegator, value) {
            Err(e) => {
                return Err(e);
            },
            Ok(()) => {},
        }
        let taken = self.currency.forfeit(HoldReason::Delegating, delegator, value, reporter);
        match settle(value, taken) {
            Err(e) => {
                return Err(e);
            },
            Ok(()) => {},
        }
        proof {
            self@.lemma_slash_wf(delegatee, delegator, value);
        }
        let record = self.delegators.get(delegator).unwrap();
        let register = self.delegatees.get(delegatee).unwrap();
        if record.amount == value {
            self.delegators.remove(delegator);
        } else {
            self.delegators.insert(delegator, Delegation { amount: record.amount - value, ..record });
        }
        self.delegatees.insert(
            delegatee,
            DelegationRegister {
                total_delegated: register.total_delegated - value,
                pending_slash: register.pending_slash - value,
                ..register
            },
        );
        Ok(())
    }
}

} // verus!
