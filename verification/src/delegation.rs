//! Delegator records, and the total that a set of records delegates to one
//! delegatee.

use vstd::prelude::*;
use vstd::set_lib::lemma_len_subset;
use crate::types::{AccountId, Balance};

verus! {

/// What one delegator has delegated, and to whom.
#[derive(Clone, Copy, Debug, PartialEq, Eq, Structural)]
pub struct Delegation {
    /// The account that stakes these funds.
    pub delegatee: AccountId,
    /// The delegated amount.
    pub amount: Balance,
}

/// What a single record contributes to the total of `delegatee`.
pub open spec fn share(record: Delegation, delegatee: AccountId) -> nat {
    if record.delegatee == delegatee {
        record.amount as nat
    } else {
        0
    }
}

/// What the record under `delegator` contributes to the total of
/// `delegatee`; zero where there is no such record.
pub open spec fn share_of(
    records: Map<AccountId, Delegation>,
    delegator: AccountId,
    delegatee: AccountId,
) -> nat {
    if records.contains_key(delegator) {
        share(records[delegator], delegatee)
    } else {
        0
    }
}

/// The sum of the amounts of all records that point at `delegatee`.
pub open spec fn delegated_to(records: Map<AccountId, Delegation>, delegatee: AccountId) -> nat
    decreases records.dom().len(),
    when records.dom().finite()
{
    if records.dom().len() == 0 {
        0
    } else {
        let delegator = records.dom().choose();
        share(records[delegator], delegatee) + delegated_to(records.remove(delegator), delegatee)
    }
}

/// The sum splits into the share of any one record and the sum of the rest.
pub proof fn lemma_delegated_to_split(
    records: Map<AccountId, Delegation>,
    delegator: AccountId,
    delegatee: AccountId,
)
    requires
        records.dom().finite(),
    ensures
        delegated_to(records, delegatee) == share_of(records, delegator, delegatee) + delegated_to(
            records.remove(delegator),
            delegatee,
        ),
    decreases records.dom().len(),
{
    if !records.contains_key(delegator) {
        assert(records.remove(delegator) =~= records);
    } else {
        let chosen = records.dom().choose();
        if chosen != delegator {
            let rest = records.remove(chosen);
            lemma_delegated_to_split(rest, delegator, delegatee);
            lemma_delegated_to_split(records.remove(delegator), chosen, delegatee);
            assert(rest.remove(delegator) =~= records.remove(delegator).remove(chosen));
        }
    }
}

/// Writing one record changes the sum by the difference of its shares.
pub proof fn lemma_delegated_to_insert(
    records: Map<AccountId, Delegation>,
    delegator: AccountId,
    record: Delegation,
    delegatee: AccountId,
)
    requires
        records.dom().finite(),
    ensures
        delegated_to(records.insert(delegator, record), delegatee) + share_of(
            records,
            delegator,
            delegatee,
        ) == delegated_to(records, delegatee) + share(record, delegatee),
{
    let written = records.insert(delegator, record);
    lemma_delegated_to_split(records, delegator, delegatee);
    lemma_delegated_to_split(written, delegator, delegatee);
    assert(written.remove(delegator) =~= records.remove(delegator));
}

/// Removing one record lowers the sum by its share.
pub proof fn lemma_delegated_to_remove(
    records: Map<AccountId, Delegation>,
    delegator: AccountId,
    delegatee: AccountId,
)
    requires
        records.dom().finite(),
    ensures
        delegated_to(records.remove(delegator), delegatee) + share_of(
            records,
            delegator,
            delegatee,
        ) == delegated_to(records, delegatee),
{
    lemma_delegated_to_split(records, delegator, delegatee);
}

/// No record holds more than the total of the delegatee it points at.
pub proof fn lemma_share_within_total(
    records: Map<AccountId, Delegation>,
    delegator: AccountId,
    delegatee: AccountId,
)
    requires
        records.dom().finite(),
    ensures
        share_of(records, delegator, delegatee) <= delegated_to(records, delegatee),
{
    lemma_delegated_to_split(records, delegator, delegatee);
}

/// Where the sum for a delegatee is zero and every record holds a positive
/// amount, no record points at that delegatee.
pub proof fn lemma_zero_total_has_no_delegator(
    records: Map<AccountId, Delegation>,
    delegator: AccountId,
    delegatee: AccountId,
)
    requires
        records.dom().finite(),
        records.contains_key(delegator),
        records[delegator].amount > 0,
        delegated_to(records, delegatee) == 0,
    ensures
        records[delegator].delegatee != delegatee,
{
    lemma_share_within_total(records, delegator, delegatee);
}

/// More records never delegate less.
pub proof fn lemma_delegated_to_monotone(
    part: Map<AccountId, Delegation>,
    whole: Map<AccountId, Delegation>,
    delegatee: AccountId,
)
    requires
        whole.dom().finite(),
        part.submap_of(whole),
    ensures
        part.dom().finite(),
        delegated_to(part, delegatee) <= delegated_to(whole, delegatee),
    decreases whole.dom().len(),
{
    lemma_len_subset(part.dom(), whole.dom());
    if whole.dom().len() != 0 {
        let k = whole.dom().choose();
        lemma_delegated_to_split(part, k, delegatee);
        lemma_delegated_to_monotone(part.remove(k), whole.remove(k), delegatee);
    }
}

} // verus!
