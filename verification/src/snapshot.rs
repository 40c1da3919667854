//! Listings of what the two stores hold, and the ledger that a pair of
//! listings describes.

use vstd::prelude::*;
use crate::delegation::{
    delegated_to, lemma_delegated_to_insert, lemma_delegated_to_monotone, Delegation,
};
use crate::ledger::Ledger;
use crate::register::DelegationRegister;
use crate::types::{AccountId, Balance};

verus! {

/// No key is listed twice.
pub open spec fn keys_distinct<V>(entries: Seq<(AccountId, V)>) -> bool {
    forall|i: int, j: int| 0 <= i < j < entries.len() ==> entries[i].0 != entries[j].0
}

/// Whether `key` is listed.
pub open spec fn lists<V>(entries: Seq<(AccountId, V)>, key: AccountId) -> bool {
    exists|i: int| 0 <= i < entries.len() && (#[trigger] entries[i]).0 == key
}

/// The map that a listing describes. Where a key is listed twice, the
/// later entry counts.
pub open spec fn map_of<V>(entries: Seq<(AccountId, V)>) -> Map<AccountId, V>
    decreases entries.len(),
{
    if entries.len() == 0 {
        Map::empty()
    } else {
        map_of(entries.drop_last()).insert(entries.last().0, entries.last().1)
    }
}

/// The ledger that a listing of registers and a listing of records
/// describe.
pub open spec fn listed_ledger(
    registers: Seq<(AccountId, DelegationRegister)>,
    records: Seq<(AccountId, Delegation)>,
) -> Ledger {
    Ledger { delegators: map_of(records), delegatees: map_of(registers) }
}

/// Whether two listings describe a ledger: no key is listed twice, and
/// both invariants hold of what is listed.
pub open spec fn restorable(
    registers: Seq<(AccountId, DelegationRegister)>,
    records: Seq<(AccountId, Delegation)>,
) -> bool {
    &&& keys_distinct(registers)
    &&& keys_distinct(records)
    &&& listed_ledger(registers, records).wf()
    &&& listed_ledger(registers, records).bounded()
}

/// `registers` with every total replaced by the sum of the `records` that
/// point at the register.
pub open spec fn tallied(
    registers: Map<AccountId, DelegationRegister>,
    records: Map<AccountId, Delegation>,
) -> Map<AccountId, DelegationRegister> {
    Map::new(
        |d: AccountId| registers.contains_key(d),
        |d: AccountId|
            DelegationRegister {
                total_delegated: delegated_to(records, d) as Balance,
                ..registers[d]
            },
    )
}

/// The described map is finite and holds exactly the listed keys.
pub proof fn lemma_map_of_keys<V>(entries: Seq<(AccountId, V)>)
    ensures
        map_of(entries).dom().finite(),
        forall|k: AccountId| #[trigger] map_of(entries).contains_key(k) <==> lists(entries, k),
    decreases entries.len(),
{
    if entries.len() != 0 {
        let rest = entries.drop_last();
        lemma_map_of_keys(rest);
        assert forall|k: AccountId| #[trigger] map_of(entries).contains_key(k) <==> lists(
            entries,
            k,
        ) by {
            if lists(entries, k) {
                let i = choose|i: int| 0 <= i < entries.len() && (#[trigger] entries[i]).0 == k;
                if i < rest.len() {
                    assert(rest[i].0 == k);
                }
            }
        }
    }
}

/// Where no key is listed twice, the described map holds each entry under
/// its key.
pub proof fn lemma_map_of_values<V>(entries: Seq<(AccountId, V)>, i: int)
    requires
        keys_distinct(entries),
        0 <= i < entries.len(),
    ensures
        map_of(entries).contains_key(entries[i].0),
        map_of(entries)[entries[i].0] == entries[i].1,
    decreases entries.len(),
{
    if i < entries.len() - 1 {
        let rest = entries.drop_last();
        lemma_map_of_values(rest, i);
    }
}

/// Listing one more entry writes it into the described map.
pub proof fn lemma_map_of_step<V>(entries: Seq<(AccountId, V)>, i: int)
    requires
        0 <= i < entries.len(),
    ensures
        map_of(entries.take(i + 1)) == map_of(entries.take(i)).insert(entries[i].0, entries[i].1),
{
    assert(entries.take(i + 1).drop_last() =~= entries.take(i));
}

/// Where no key is listed twice, what a part of the listing describes is
/// part of what the whole describes.
pub proof fn lemma_map_of_prefix<V>(entries: Seq<(AccountId, V)>, i: int)
    requires
        keys_distinct(entries),
        0 <= i <= entries.len(),
    ensures
        map_of(entries.take(i)).submap_of(map_of(entries)),
{
    let part = entries.take(i);
    lemma_map_of_keys(part);
    assert forall|k: AccountId| #[trigger] map_of(part).dom().contains(k) implies #[trigger] map_of(
        entries,
    ).dom().contains(k) && map_of(part)[k] == map_of(entries)[k] by {
        let j = choose|j: int| 0 <= j < part.len() && (#[trigger] part[j]).0 == k;
        lemma_map_of_values(part, j);
        lemma_map_of_values(entries, j);
    }
}

/// A key that the listing holds before place `i` and again at place `i` is
/// listed twice.
pub proof fn lemma_listed_twice<V>(entries: Seq<(AccountId, V)>, i: int)
    requires
        0 <= i < entries.len(),
        map_of(entries.take(i)).contains_key(entries[i].0),
    ensures
        !keys_distinct(entries),
{
    let part = entries.take(i);
    lemma_map_of_keys(part);
}

/// A key that the listing does not hold before place `i` keeps the keys
/// distinct up to and with place `i`.
pub proof fn lemma_listed_once<V>(entries: Seq<(AccountId, V)>, i: int)
    requires
        0 <= i < entries.len(),
        keys_distinct(entries.take(i)),
        !map_of(entries.take(i)).contains_key(entries[i].0),
    ensures
        keys_distinct(entries.take(i + 1)),
{
    let part = entries.take(i);
    lemma_map_of_keys(part);
}

/// Registers tallied over no records make a ledger.
pub proof fn lemma_tally_of_nothing(registers: Map<AccountId, DelegationRegister>)
    requires
        registers.dom().finite(),
    ensures
        (Ledger {
            delegators: Map::empty(),
            delegatees: tallied(registers, Map::empty()),
        }).wf(),
{
    assert(tallied(registers, Map::empty()).dom() =~= registers.dom());
}

/// Tallying one more record, of a delegator that had none, adds its amount
/// to the total of its delegatee and changes no other register.
pub proof fn lemma_tally_step(
    registers: Map<AccountId, DelegationRegister>,
    records: Map<AccountId, Delegation>,
    delegator: AccountId,
    record: Delegation,
)
    requires
        (Ledger { delegators: records, delegatees: tallied(registers, records) }).wf(),
        !records.contains_key(delegator),
        record.amount > 0,
        registers.contains_key(record.delegatee),
    ensures
        delegated_to(records.insert(delegator, record), record.delegatee) == delegated_to(
            records,
            record.delegatee,
        ) + record.amount,
        delegated_to(records, record.delegatee) + record.amount <= Balance::MAX ==> {
            &&& tallied(registers, records.insert(delegator, record)) == tallied(
                registers,
                records,
            ).insert(
                record.delegatee,
                DelegationRegister {
                    total_delegated: (tallied(registers, records)[record.delegatee].total_delegated
                        + record.amount) as Balance,
                    ..tallied(registers, records)[record.delegatee]
                },
            )
            &&& (Ledger {
                delegators: records.insert(delegator, record),
                delegatees: tallied(registers, records.insert(delegator, record)),
            }).wf()
        },
{
    let before = Ledger { delegators: records, delegatees: tallied(registers, records) };
    let more = records.insert(delegator, record);
    assert forall|d: AccountId|
        delegated_to(more, d) == delegated_to(records, d) + (if d == record.delegatee {
            record.amount as int
        } else {
            0
        }) by {
        lemma_delegated_to_insert(records, delegator, record, d);
    }
    if delegated_to(records, record.delegatee) + record.amount <= Balance::MAX {
        let after = Ledger { delegators: more, delegatees: tallied(registers, more) };
        assert forall|d: AccountId| #[trigger] after.delegatees.contains_key(d) implies {
            &&& after.delegatees[d].total_delegated == delegated_to(more, d)
            &&& d != record.delegatee ==> after.delegatees[d] == before.delegatees[d]
        } by {}
        assert forall|a: AccountId| #[trigger] after.delegators.contains_key(a) implies {
            &&& after.delegators[a].amount > 0
            &&& after.delegatees.contains_key(after.delegators[a].delegatee)
        } by {}
    }
}

/// Listings cannot be restored where a record that is listed once holds
/// nothing, points at an account without a register, or lifts the sum for
/// its delegatee beyond the largest balance.
pub proof fn lemma_record_unfit(
    registers: Seq<(AccountId, DelegationRegister)>,
    records: Seq<(AccountId, Delegation)>,
    j: int,
)
    requires
        0 <= j < records.len(),
        ({
            ||| records[j].1.amount == 0
            ||| !map_of(registers).contains_key(records[j].1.delegatee)
            ||| delegated_to(map_of(records.take(j + 1)), records[j].1.delegatee) > Balance::MAX
        }),
    ensures
        !restorable(registers, records),
{
    if keys_distinct(records) {
        lemma_map_of_values(records, j);
        lemma_map_of_keys(records);
        lemma_map_of_prefix(records, j + 1);
        lemma_delegated_to_monotone(
            map_of(records.take(j + 1)),
            map_of(records),
            records[j].1.delegatee,
        );
    }
}

/// Listings cannot be restored where a register that is listed once
/// claims a total other than the sum of the records that point at it, or
/// has more bonded or more slash pending than that total.
pub proof fn lemma_register_unfit(
    registers: Seq<(AccountId, DelegationRegister)>,
    records: Seq<(AccountId, Delegation)>,
    i: int,
)
    requires
        0 <= i < registers.len(),
        registers[i].1.total_delegated != delegated_to(map_of(records), registers[i].0)
            || !registers[i].1.bounded(),
    ensures
        !restorable(registers, records),
{
    if keys_distinct(registers) {
        lemma_map_of_values(registers, i);
    }
}

/// Where every listed register is within its bounds and claims the sum
/// of the records that point at it, tallying changes nothing, and what is
/// listed is within its bounds.
pub proof fn lemma_tally_confirms(
    registers: Seq<(AccountId, DelegationRegister)>,
    records: Map<AccountId, Delegation>,
)
    requires
        keys_distinct(registers),
        forall|i: int|
            0 <= i < registers.len() ==> {
                &&& (#[trigger] registers[i]).1.total_delegated == delegated_to(
                    records,
                    registers[i].0,
                )
                &&& registers[i].1.bounded()
            },
    ensures
        tallied(map_of(registers), records) == map_of(registers),
        forall|d: AccountId| #[trigger]
            map_of(registers).contains_key(d) ==> map_of(registers)[d].bounded(),
{
    lemma_map_of_keys(registers);
    assert forall|d: AccountId| #[trigger] map_of(registers).contains_key(d) implies {
        &&& tallied(map_of(registers), records)[d] == map_of(registers)[d]
        &&& map_of(registers)[d].bounded()
    } by {
        let i = choose|i: int| 0 <= i < registers.len() && (#[trigger] registers[i]).0 == d;
        lemma_map_of_values(registers, i);
    }
}

} // verus!
