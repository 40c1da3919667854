//! What holds of sequences of operations, stated over the model that the
//! contracts of the operations speak of.

use vstd::prelude::*;
use crate::ledger::Ledger;
use crate::types::{AccountId, Balance, Error};

verus! {

/// One write that an operation of the ledger makes to the stores. The
/// migrations make two of them in a row.
pub enum Step {
    /// `who` starts to accept delegations, or changes where its rewards go.
    Accept { who: AccountId, reward_destination: AccountId },
    /// `who` stops to take new delegations.
    Block { who: AccountId },
    /// The register of `who` is removed.
    Kill { who: AccountId },
    /// `delegator` delegates `value` more to `delegatee`.
    Delegate { delegator: AccountId, delegatee: AccountId, value: Balance },
    /// `value` leaves what `delegator` has delegated to `delegatee`.
    Withdraw { delegator: AccountId, delegatee: AccountId, value: Balance },
    /// The bonded amount of the delegatee `who` becomes `amount`.
    UpdateHold { who: AccountId, amount: Balance },
    /// The backend lets go of the stake of `who`.
    Release { who: AccountId },
    /// `value` of the pending slash of `delegatee` is taken from
    /// `delegator`.
    Slash { delegatee: AccountId, delegator: AccountId, value: Balance },
}

/// Whether the ledger lets `step` happen.
pub open spec fn admits(ledger: Ledger, step: Step) -> bool {
    match step {
        Step::Accept { who, reward_destination } => reward_destination != who,
        Step::Block { who } => ledger.is_delegatee(who),
        Step::Kill { who } => ledger.kill_refusal(who) is None,
        Step::Delegate { delegator, delegatee, value } => ledger.delegation_refusal(
            delegator,
            delegatee,
            value,
        ) is None,
        Step::Withdraw { delegator, delegatee, value } => ledger.withdraw_refusal(
            delegator,
            delegatee,
            value,
        ) is None,
        Step::UpdateHold { who, amount } => ledger.is_delegatee(who) && ledger.hold_refusal(
            who,
            amount,
        ) is None,
        Step::Release { who } => true,
        Step::Slash { delegatee, delegator, value } => ledger.slash_refusal(
            delegatee,
            delegator,
            value,
        ) is None,
    }
}

/// The ledger after `step`.
pub open spec fn after(ledger: Ledger, step: Step) -> Ledger {
    match step {
        Step::Accept { who, reward_destination } => ledger.accept(who, reward_destination),
        Step::Block { who } => ledger.block(who),
        Step::Kill { who } => ledger.kill(who),
        Step::Delegate { delegator, delegatee, value } => ledger.delegate(
            delegator,
            delegatee,
            value,
        ),
        Step::Withdraw { delegator, delegatee, value } => ledger.withdraw(
            delegator,
            delegatee,
            value,
        ),
        Step::UpdateHold { who, amount } => ledger.set_hold(who, amount),
        Step::Release { who } => ledger.release(who),
        Step::Slash { delegatee, delegator, value } => ledger.slash(delegatee, delegator, value),
    }
}

/// Whether `step` leaves the total of its delegatee at or above the bonded
/// amount and the pending slash. Only a withdrawal can fail to: the
/// backend lowers the bonded amount of what it lets go, and where the
/// withdrawal comes first the total is below it for a while.
pub open spec fn within_headroom(ledger: Ledger, step: Step) -> bool {
    step matches Step::Withdraw { delegator, delegatee, value } ==> value <= ledger.headroom(
        delegatee,
    )
}

/// Whether the ledger lets every one of `steps` happen in turn.
pub open spec fn admits_all(ledger: Ledger, steps: Seq<Step>) -> bool
    decreases steps.len(),
{
    steps.len() > 0 ==> admits(ledger, steps.first()) && admits_all(
        after(ledger, steps.first()),
        steps.drop_first(),
    )
}

/// Whether every withdrawal among `steps` stays within the headroom that
/// it finds.
pub open spec fn all_within_headroom(ledger: Ledger, steps: Seq<Step>) -> bool
    decreases steps.len(),
{
    steps.len() > 0 ==> within_headroom(ledger, steps.first()) && all_within_headroom(
        after(ledger, steps.first()),
        steps.drop_first(),
    )
}

/// The ledger after all of `steps` in turn.
pub open spec fn after_all(ledger: Ledger, steps: Seq<Step>) -> Ledger
    decreases steps.len(),
{
    if steps.len() == 0 {
        ledger
    } else {
        after_all(after(ledger, steps.first()), steps.drop_first())
    }
}

/// Every step keeps the accounting invariant: each record holds a positive
/// amount, and each register's total is the sum of the records that point
/// at it.
pub proof fn lemma_step_keeps_totals(ledger: Ledger, step: Step)
    requires
        ledger.wf(),
        admits(ledger, step),
    ensures
        after(ledger, step).wf(),
{
    match step {
        Step::Accept { who, reward_destination } => ledger.lemma_accept_wf(who, reward_destination),
        Step::Block { who } => ledger.lemma_block_wf(who),
        Step::Kill { who } => ledger.lemma_kill_wf(who),
        Step::Delegate { delegator, delegatee, value } => ledger.lemma_delegate_wf(
            delegator,
            delegatee,
            value,
        ),
        Step::Withdraw { delegator, delegatee, value } => ledger.lemma_withdraw_wf(
            delegator,
            delegatee,
            value,
        ),
        Step::UpdateHold { who, amount } => ledger.lemma_set_hold_wf(who, amount),
        Step::Release { who } => ledger.lemma_release_wf(who),
        Step::Slash { delegatee, delegator, value } => ledger.lemma_slash_wf(
            delegatee,
            delegator,
            value,
        ),
    }
}

/// Every step keeps the bonded amount and the pending slash of every
/// register at or below its total, a withdrawal as long as it stays within
/// the headroom.
pub proof fn lemma_step_keeps_bounds(ledger: Ledger, step: Step)
    requires
        ledger.wf(),
        ledger.bounded(),
        admits(ledger, step),
        within_headroom(ledger, step),
    ensures
        after(ledger, step).bounded(),
{
    match step {
        Step::Accept { who, reward_destination } => ledger.lemma_accept_wf(who, reward_destination),
        Step::Block { who } => ledger.lemma_block_wf(who),
        Step::Kill { who } => ledger.lemma_kill_wf(who),
        Step::Delegate { delegator, delegatee, value } => ledger.lemma_delegate_wf(
            delegator,
            delegatee,
            value,
        ),
        Step::Withdraw { delegator, delegatee, value } => ledger.lemma_withdraw_wf(
            delegator,
            delegatee,
            value,
        ),
        Step::UpdateHold { who, amount } => ledger.lemma_set_hold_wf(who, amount),
        Step::Release { who } => ledger.lemma_release_wf(who),
        Step::Slash { delegatee, delegator, value } => ledger.lemma_slash_wf(
            delegatee,
            delegator,
            value,
        ),
    }
}

/// Both invariants hold of every ledger that steps lead to from a ledger
/// of which they hold.
pub proof fn lemma_invariants_hold_throughout(ledger: Ledger, steps: Seq<Step>)
    requires
        ledger.wf(),
        admits_all(ledger, steps),
    ensures
        after_all(ledger, steps).wf(),
        ledger.bounded() && all_within_headroom(ledger, steps) ==> after_all(
            ledger,
            steps,
        ).bounded(),
    decreases steps.len(),
{
    if steps.len() > 0 {
        lemma_step_keeps_totals(ledger, steps.first());
        if ledger.bounded() && all_within_headroom(ledger, steps) {
            lemma_step_keeps_bounds(ledger, steps.first());
        }
        lemma_invariants_hold_throughout(after(ledger, steps.first()), steps.drop_first());
    }
}

/// Both invariants hold of every ledger that steps lead to from the empty
/// one: in each register the bonded amount and the pending slash stay at or
/// below the total, as long as no withdrawal runs ahead of the backend, and
/// each total is the sum of the positive amounts of the records that point
/// at the register.
pub proof fn lemma_invariants_hold_from_empty(steps: Seq<Step>)
    requires
        admits_all(Ledger::empty(), steps),
    ensures
        after_all(Ledger::empty(), steps).wf(),
        all_within_headroom(Ledger::empty(), steps) ==> after_all(
            Ledger::empty(),
            steps,
        ).bounded(),
{
    lemma_invariants_hold_throughout(Ledger::empty(), steps);
}

/// Of two bond updates in a row at most one asks the backend to bond a
/// non-zero amount: once the backend has taken the first command and
/// reported the resulting bonded amount through a hold update, which the
/// ledger accepts, nothing is left to bond. Where the first update already
/// finds nothing to bond, so does the second.
pub proof fn lemma_bond_update_settles(
    ledger: Ledger,
    who: AccountId,
    first_has_stake: bool,
    second_has_stake: bool,
)
    requires
        ledger.wf(),
        ledger.bounded(),
        ledger.is_delegatee(who),
    ensures
        match ledger.bond_command(who, first_has_stake) {
            Ok(Some(command)) => {
                let reported = ledger.delegatees[who].hold + command.amount();
                &&& command.amount() > 0
                &&& reported == ledger.delegatees[who].total_delegated
                &&& ledger.hold_refusal(who, reported as Balance) is None
                &&& ledger.set_hold(who, reported as Balance).bond_command(who, second_has_stake)
                    == Ok::<Option<crate::types::BondCommand>, Error>(None)
            },
            Ok(None) => ledger.bond_command(who, second_has_stake) == Ok::<
                Option<crate::types::BondCommand>,
                Error,
            >(None),
            Err(_) => false,
        },
{
}

/// Delegating `value` and withdrawing it again restores the ledger: the
/// delegatee's total is what it was, and a delegator without a record
/// before has none after. The withdrawal is never refused after a
/// delegation of a non-zero value.
pub proof fn lemma_delegate_then_withdraw_restores(
    ledger: Ledger,
    delegator: AccountId,
    delegatee: AccountId,
    value: Balance,
)
    requires
        ledger.wf(),
        ledger.delegation_refusal(delegator, delegatee, value) is None,
    ensures
        value > 0 ==> ledger.delegate(delegator, delegatee, value).withdraw_refusal(
            delegator,
            delegatee,
            value,
        ) is None,
        ledger.delegate(delegator, delegatee, value).withdraw_refusal(delegator, delegatee, value)
            is None ==> {
            let restored = ledger.delegate(delegator, delegatee, value).withdraw(
                delegator,
                delegatee,
                value,
            );
            &&& restored.delegators == ledger.delegators
            &&& restored.delegatees == ledger.delegatees
            &&& restored.delegatees[delegatee].total_delegated
                == ledger.delegatees[delegatee].total_delegated
            &&& !ledger.delegators.contains_key(delegator) ==> !restored.delegators.contains_key(
                delegator,
            )
        },
{
    ledger.lemma_delegate_wf(delegator, delegatee, value);
}

/// A value below the smallest balance an account may hold is refused for
/// want of funds, whatever else holds of the delegation.
pub proof fn lemma_delegate_below_minimum_is_refused(
    ledger: Ledger,
    delegator: AccountId,
    delegatee: AccountId,
    value: Balance,
    delegator_balance: Balance,
    minimum_balance: Balance,
)
    requires
        value < minimum_balance,
    ensures
        ledger.delegate_refusal(delegator, delegatee, value, delegator_balance, minimum_balance)
            == Some(Error::NotEnoughFunds),
{
}

} // verus!
