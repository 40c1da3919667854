//! The two key-value stores of the ledger.

use std::collections::HashMap;
use vstd::prelude::*;
use crate::delegation::Delegation;
use crate::register::DelegationRegister;
use crate::types::AccountId;

verus! {

broadcast use vstd::std_specs::hash::group_hash_axioms;

/// The value under `key`, if there is one.
pub open spec fn lookup<V>(entries: Map<AccountId, V>, key: AccountId) -> Option<V> {
    if entries.contains_key(key) {
        Some(entries[key])
    } else {
        None
    }
}

/// `entries` with the value under `key` replaced by `value`, or removed
/// where `value` is `None`.
pub open spec fn assign<V>(entries: Map<AccountId, V>, key: AccountId, value: Option<V>) -> Map<
    AccountId,
    V,
> {
    match value {
        Some(v) => entries.insert(key, v),
        None => entries.remove(key),
    }
}

/// Writing back what was under a key undoes any write to that key.
pub proof fn lemma_assign_restores<V>(
    before: Map<AccountId, V>,
    after: Map<AccountId, V>,
    key: AccountId,
)
    requires
        forall|k: AccountId| k != key ==> before.contains_key(k) == after.contains_key(k),
        forall|k: AccountId| k != key && before.contains_key(k) ==> before[k] == after[k],
    ensures
        assign(after, key, lookup(before, key)) == before,
{
}

/// Delegator to its delegation. A delegator points at one delegatee at a
/// time.
pub struct DelegatorStore {
    records: HashMap<AccountId, Delegation>,
}

impl View for DelegatorStore {
    type V = Map<AccountId, Delegation>;

    closed spec fn view(&self) -> Map<AccountId, Delegation> {
        self.records@
    }
}

impl DelegatorStore {
    /// A store without records.
    pub fn new() -> (store: DelegatorStore)
        ensures
            store@ == Map::<AccountId, Delegation>::empty(),
    {
        DelegatorStore { records: HashMap::new() }
    }

    /// The record of `delegator`.
    pub fn get(&self, delegator: AccountId) -> (record: Option<Delegation>)
        ensures
            record == lookup(self@, delegator),
    {
        match self.records.get(&delegator) {
            Some(record) => Some(*record),
            None => None,
        }
    }

    /// Whether `delegator` has a record.
    pub fn contains_key(&self, delegator: AccountId) -> (found: bool)
        ensures
            found == self@.contains_key(delegator),
    {
        self.records.contains_key(&delegator)
    }

    /// Writes the record of `delegator`.
    pub fn insert(&mut self, delegator: AccountId, record: Delegation)
        ensures
            final(self)@ == old(self)@.insert(delegator, record),
    {
        self.records.insert(delegator, record);
    }

    /// Removes the record of `delegator`, if there is one.
    pub fn remove(&mut self, delegator: AccountId)
        ensures
            final(self)@ == old(self)@.remove(delegator),
    {
        self.records.remove(&delegator);
    }

    /// Sets the record of `delegator` to `record`, or removes it where
    /// `record` is `None`.
    pub fn assign(&mut self, delegator: AccountId, record: Option<Delegation>)
        ensures
            final(self)@ == assign(old(self)@, delegator, record),
    {
        match record {
            Some(r) => self.insert(delegator, r),
            None => self.remove(delegator),
        }
    }
}

/// Delegatee to its register.
pub struct DelegateeStore {
    registers: HashMap<AccountId, DelegationRegister>,
}

impl View for DelegateeStore {
    type V = Map<AccountId, DelegationRegister>;

    closed spec fn view(&self) -> Map<AccountId, DelegationRegister> {
        self.registers@
    }
}

impl DelegateeStore {
    /// A store without registers.
    pub fn new() -> (store: DelegateeStore)
        ensures
            store@ == Map::<AccountId, DelegationRegister>::empty(),
    {
        DelegateeStore { registers: HashMap::new() }
    }

    /// The register of `delegatee`.
    pub fn get(&self, delegatee: AccountId) -> (register: Option<DelegationRegister>)
        ensures
            register == lookup(self@, delegatee),
    {
        match self.registers.get(&delegatee) {
            Some(register) => Some(*register),
            None => None,
        }
    }

    /// Whether `delegatee` has a register.
    pub fn contains_key(&self, delegatee: AccountId) -> (found: bool)
        ensures
            found == self@.contains_key(delegatee),
    {
        self.registers.contains_key(&delegatee)
    }

    /// Writes the register of `delegatee`.
    pub fn insert(&mut self, delegatee: AccountId, register: DelegationRegister)
        ensures
            final(self)@ == old(self)@.insert(delegatee, register),
    {
        self.registers.insert(delegatee, register);
    }

    /// Removes the register of `delegatee`, if there is one.
    pub fn remove(&mut self, delegatee: AccountId)
        ensures
            final(self)@ == old(self)@.remove(delegatee),
    {
        self.registers.remove(&delegatee);
    }

    /// Sets the register of `delegatee` to `register`, or removes it where
    /// `register` is `None`.
    pub fn assign(&mut self, delegatee: AccountId, register: Option<DelegationRegister>)
        ensures
            final(self)@ == assign(old(self)@, delegatee, register),
    {
        match register {
            Some(r) => self.insert(delegatee, r),
            None => self.remove(delegatee),
        }
    }
}

} // verus!
