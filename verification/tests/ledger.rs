use std::collections::HashMap;

use sp_arithmetic::traits::Saturating;

use delegated_staking::collaborators::{Config, CoreStaking, Currency};
use delegated_staking::delegation::Delegation;
use delegated_staking::pallet::{or_fail_with, settle, Pallet};
use delegated_staking::register::DelegationRegister;
use delegated_staking::types::{
    AccountId, Balance, BondCommand, Error, HoldReason, Precision, Preservation, Refusal, Stake,
    StakeBalanceType, StakerStatus,
};

const A: AccountId = 1;
const B: AccountId = 2;
const D: AccountId = 10;
const D2: AccountId = 11;
const P: AccountId = 20;
const R: AccountId = 30;

/// An in-memory currency that keeps free and held funds apart.
#[derive(Default)]
struct Bank {
    free: HashMap<AccountId, Balance>,
    held: HashMap<AccountId, Balance>,
    minimum: Balance,
    refuse_hold: bool,
    refuse_transfer: bool,
    release_short_by: Balance,
    forfeit_short_by: Balance,
}

impl Bank {
    fn free(&self, who: AccountId) -> Balance {
        *self.free.get(&who).unwrap_or(&0)
    }

    fn held(&self, who: AccountId) -> Balance {
        *self.held.get(&who).unwrap_or(&0)
    }
}

impl Currency for Bank {
    fn reducible_balance(&self, who: AccountId) -> Balance {
        self.free(who)
    }

    fn minimum_balance(&self) -> Balance {
        self.minimum
    }

    fn hold(&mut self, _reason: HoldReason, who: AccountId, amount: Balance) -> Result<(), Refusal> {
        if self.refuse_hold || self.free(who) < amount {
            return Err(Refusal);
        }
        *self.free.entry(who).or_insert(0) -= amount;
        *self.held.entry(who).or_insert(0) += amount;
        Ok(())
    }

    fn release(
        &mut self,
        _reason: HoldReason,
        who: AccountId,
        amount: Balance,
        _precision: Precision,
    ) -> Result<Balance, Refusal> {
        let freed = amount.min(self.held(who)).saturating_sub(self.release_short_by);
        *self.held.entry(who).or_insert(0) -= freed;
        *self.free.entry(who).or_insert(0) += freed;
        Ok(freed)
    }

    fn transfer(
        &mut self,
        from: AccountId,
        to: AccountId,
        amount: Balance,
        _preservation: Preservation,
    ) -> Result<(), Refusal> {
        if self.refuse_transfer || self.free(from) < amount {
            return Err(Refusal);
        }
        *self.free.entry(from).or_insert(0) -= amount;
        *self.free.entry(to).or_insert(0) += amount;
        Ok(())
    }

    fn forfeit(
        &mut self,
        _reason: HoldReason,
        who: AccountId,
        amount: Balance,
        beneficiary: Option<AccountId>,
    ) -> Result<Balance, Refusal> {
        let taken = amount.min(self.held(who)).saturating_sub(self.forfeit_short_by);
        *self.held.entry(who).or_insert(0) -= taken;
        if let Some(account) = beneficiary {
            *self.free.entry(account).or_insert(0) += taken;
        }
        Ok(taken)
    }
}

/// An in-memory staking backend that records every command it is given.
#[derive(Default)]
struct Backend {
    status: HashMap<AccountId, StakerStatus>,
    stake: HashMap<AccountId, Stake>,
    commands: Vec<BondCommand>,
    unbonded: Vec<(AccountId, Balance)>,
    unlocked: Vec<AccountId>,
    withdrawn: Vec<(AccountId, Balance, u32)>,
    holds: Vec<(AccountId, Balance)>,
    released: Vec<AccountId>,
    refuse_bond: bool,
    refuse_withdraw: bool,
    refuse_unlock: bool,
    refuse_hold: bool,
}

impl CoreStaking for Backend {
    fn status(&self, who: AccountId) -> Result<StakerStatus, Refusal> {
        self.status.get(&who).cloned().ok_or(Refusal)
    }

    fn stake(&self, who: AccountId) -> Result<Stake, Refusal> {
        self.stake.get(&who).copied().ok_or(Refusal)
    }

    fn bond(&mut self, who: AccountId, amount: Balance, payee: AccountId) -> Result<(), Refusal> {
        self.commands.push(BondCommand::Bond { who, amount, payee });
        if self.refuse_bond {
            return Err(Refusal);
        }
        self.stake.insert(who, Stake { total: amount, active: amount });
        Ok(())
    }

    fn bond_extra(&mut self, who: AccountId, amount: Balance) -> Result<(), Refusal> {
        self.commands.push(BondCommand::BondExtra { who, amount });
        if self.refuse_bond {
            return Err(Refusal);
        }
        let stake = self.stake.get_mut(&who).ok_or(Refusal)?;
        stake.total += amount;
        stake.active += amount;
        Ok(())
    }

    fn unbond(&mut self, who: AccountId, amount: Balance) -> Result<(), Refusal> {
        self.unbonded.push((who, amount));
        let stake = self.stake.get_mut(&who).ok_or(Refusal)?;
        if stake.active < amount {
            return Err(Refusal);
        }
        stake.active -= amount;
        Ok(())
    }

    fn force_unlock(&mut self, who: AccountId) -> Result<(), Refusal> {
        if self.refuse_unlock {
            return Err(Refusal);
        }
        self.unlocked.push(who);
        self.status.remove(&who);
        self.stake.remove(&who);
        Ok(())
    }

    fn withdraw_exact(
        &mut self,
        who: AccountId,
        amount: Balance,
        num_slashing_spans: u32,
    ) -> Result<bool, Refusal> {
        if self.refuse_withdraw {
            return Err(Refusal);
        }
        self.withdrawn.push((who, amount, num_slashing_spans));
        Ok(false)
    }

    fn update_hold(&mut self, who: AccountId, amount: Balance) -> Result<(), Refusal> {
        if self.refuse_hold {
            return Err(Refusal);
        }
        self.holds.push((who, amount));
        Ok(())
    }

    fn release(&mut self, who: AccountId) {
        self.released.push(who);
    }
}

struct Runtime;

impl Config for Runtime {
    type Currency = Bank;
    type CoreStaking = Backend;
}

fn fresh() -> Pallet<Runtime> {
    let mut bank = Bank::default();
    bank.minimum = 10;
    bank.free.insert(A, 1_000);
    bank.free.insert(B, 1_000);
    bank.free.insert(D, 1_000);
    bank.free.insert(D2, 1_000);
    Pallet::new(bank, Backend::default())
}

fn with_delegatee() -> Pallet<Runtime> {
    let mut pallet = fresh();
    assert_eq!(pallet.accept_delegations(D, P), Ok(()));
    pallet
}

fn register(pallet: &Pallet<Runtime>, who: AccountId) -> DelegationRegister {
    pallet.register(who).expect("the account has a register")
}

/// Checks both invariants of the ledger over the accounts that the tests
/// use.
fn assert_consistent(pallet: &Pallet<Runtime>) {
    let accounts = [A, B, D, D2, P, R];
    for delegatee in accounts {
        if let Some(register) = pallet.register(delegatee) {
            let mut sum: Balance = 0;
            for delegator in accounts {
                if let Some(record) = pallet.delegation(delegator) {
                    assert!(record.amount > 0);
                    if record.delegatee == delegatee {
                        sum += record.amount;
                    }
                }
            }
            assert_eq!(register.total_delegated, sum);
            assert!(register.hold <= register.total_delegated);
            assert!(register.pending_slash <= register.total_delegated);
        }
    }
}

#[test]
fn accept_delegations_on_fresh_state_creates_empty_register() {
    let mut pallet = fresh();
    assert_eq!(pallet.accept_delegations(D, P), Ok(()));
    assert_eq!(
        pallet.register(D),
        Some(DelegationRegister {
            payee: P,
            total_delegated: 0,
            hold: 0,
            pending_slash: 0,
            blocked: false,
        })
    );
    assert!(pallet.is_delegatee(D));
    assert_consistent(&pallet);
}

#[test]
fn accept_delegations_refuses_a_direct_staker() {
    let mut pallet = fresh();
    pallet.staking_mut().status.insert(D, StakerStatus::Validator);
    assert_eq!(pallet.accept_delegations(D, P), Err(Error::AlreadyStaker));
    assert_eq!(pallet.register(D), None);
}

#[test]
fn accept_delegations_refuses_itself_as_reward_destination() {
    let mut pallet = fresh();
    assert_eq!(pallet.accept_delegations(D, D), Err(Error::InvalidRewardDestination));
    assert_eq!(pallet.register(D), None);
}

#[test]
fn accept_delegations_prefers_already_staker_over_reward_destination() {
    let pallet = with_delegatee();
    assert_eq!(pallet.check_accept_delegations(D2, D2, true), Err(Error::AlreadyStaker));
    assert_eq!(pallet.check_accept_delegations(D2, D2, false), Err(Error::InvalidRewardDestination));
    assert_eq!(pallet.check_accept_delegations(D2, P, false), Ok(()));
    // a delegatee that the backend knows stakes what is delegated to it
    assert_eq!(pallet.check_accept_delegations(D, P, true), Ok(()));
    assert_eq!(pallet.check_accept_delegations(D, D, true), Err(Error::InvalidRewardDestination));
}

#[test]
fn accept_delegations_unblocks_a_delegatee_that_has_bonded() {
    let mut pallet = with_delegatee();
    assert_eq!(pallet.delegate(A, D, 50), Ok(()));
    assert_eq!(pallet.update_bond(D), Ok(()));
    pallet.staking_mut().status.insert(D, StakerStatus::Nominator(vec![R]));
    assert_eq!(pallet.block_delegations(D), Ok(()));
    assert_eq!(pallet.accept_delegations(D, R), Ok(()));
    assert!(!register(&pallet, D).blocked);
    assert_eq!(register(&pallet, D).payee, R);
    assert_eq!(pallet.accept_delegations(D, D), Err(Error::InvalidRewardDestination));
}

#[test]
fn accept_delegations_unblocks_and_repays_an_existing_register() {
    let mut pallet = with_delegatee();
    assert_eq!(pallet.delegate(A, D, 50), Ok(()));
    assert_eq!(pallet.block_delegations(D), Ok(()));
    assert!(register(&pallet, D).blocked);
    assert_eq!(pallet.accept_delegations(D, R), Ok(()));
    assert_eq!(
        pallet.register(D),
        Some(DelegationRegister {
            payee: R,
            total_delegated: 50,
            hold: 0,
            pending_slash: 0,
            blocked: false,
        })
    );
    assert_consistent(&pallet);
}

#[test]
fn block_delegations_needs_a_register() {
    let mut pallet = fresh();
    assert_eq!(pallet.block_delegations(D), Err(Error::NotDelegatee));
    assert_eq!(pallet.register(D), None);
}

#[test]
fn blocked_delegatee_takes_no_new_delegation_and_keeps_the_old() {
    let mut pallet = with_delegatee();
    assert_eq!(pallet.delegate(A, D, 50), Ok(()));
    assert_eq!(pallet.block_delegations(D), Ok(()));
    assert_eq!(pallet.delegate(B, D, 50), Err(Error::InvalidDelegation));
    assert_eq!(pallet.delegate(A, D, 50), Err(Error::InvalidDelegation));
    assert_eq!(pallet.delegation(A), Some(Delegation { delegatee: D, amount: 50 }));
    assert_eq!(pallet.delegation(B), None);
    assert_eq!(register(&pallet, D).total_delegated, 50);
    assert_eq!(pallet.currency().held(B), 0);
    assert_consistent(&pallet);
}

#[test]
fn delegate_to_an_account_without_register_fails() {
    let mut pallet = fresh();
    assert_eq!(pallet.delegate(A, D, 50), Err(Error::NotDelegatee));
    assert_eq!(pallet.delegation(A), None);
    assert_eq!(pallet.register(D), None);
    assert_eq!(pallet.currency().free(A), 1_000);
    assert_eq!(pallet.currency().held(A), 0);
}

#[test]
fn delegate_twice_accumulates() {
    let mut pallet = with_delegatee();
    assert_eq!(pallet.delegate(A, D, 50), Ok(()));
    assert_eq!(pallet.delegate(A, D, 30), Ok(()));
    assert_eq!(pallet.delegation(A), Some(Delegation { delegatee: D, amount: 80 }));
    assert_eq!(register(&pallet, D).total_delegated, 80);
    assert_eq!(pallet.currency().held(A), 80);
    assert_eq!(pallet.currency().free(A), 920);
    assert_consistent(&pallet);
}

#[test]
fn delegate_to_a_second_delegatee_fails() {
    let mut pallet = with_delegatee();
    assert_eq!(pallet.accept_delegations(D2, P), Ok(()));
    assert_eq!(pallet.delegate(A, D, 50), Ok(()));
    assert_eq!(pallet.delegate(A, D2, 10), Err(Error::InvalidDelegation));
    assert_eq!(pallet.delegation(A), Some(Delegation { delegatee: D, amount: 50 }));
    assert_eq!(register(&pallet, D2).total_delegated, 0);
    assert_consistent(&pallet);
}

#[test]
fn delegate_below_minimum_balance_fails_whatever_else_holds() {
    let mut pallet = with_delegatee();
    // a sound delegation, but for the value
    assert_eq!(pallet.delegate(A, D, 9), Err(Error::NotEnoughFunds));
    // to an account without a register
    assert_eq!(pallet.delegate(A, D2, 9), Err(Error::NotEnoughFunds));
    // to oneself
    assert_eq!(pallet.delegate(A, A, 9), Err(Error::NotEnoughFunds));
    // from a delegatee
    assert_eq!(pallet.delegate(D, D, 0), Err(Error::NotEnoughFunds));
    assert_eq!(pallet.check_delegate(A, D, 9, 1_000, 10), Err(Error::NotEnoughFunds));
    assert_eq!(pallet.check_delegate(A, A, 9, 0, 10), Err(Error::NotEnoughFunds));
    assert_eq!(pallet.check_delegate(A, D, 10, 1_000, 10), Ok(()));
    assert_eq!(pallet.delegation(A), None);
    assert_consistent(&pallet);
}

#[test]
fn delegate_more_than_the_spendable_balance_fails() {
    let mut pallet = with_delegatee();
    assert_eq!(pallet.delegate(A, D, 1_001), Err(Error::NotEnoughFunds));
    assert_eq!(pallet.check_delegate(A, D, 50, 49, 10), Err(Error::NotEnoughFunds));
    assert_eq!(pallet.delegation(A), None);
}

#[test]
fn delegate_to_oneself_fails() {
    let mut pallet = with_delegatee();
    assert_eq!(pallet.delegate(D, D, 50), Err(Error::InvalidDelegation));
    assert_eq!(pallet.delegation(D), None);
}

#[test]
fn delegatee_cannot_delegate() {
    let mut pallet = with_delegatee();
    assert_eq!(pallet.accept_delegations(D2, P), Ok(()));
    assert_eq!(pallet.delegate(D2, D, 50), Err(Error::InvalidDelegation));
    assert_eq!(pallet.delegation(D2), None);
}

#[test]
fn delegate_checks_in_order() {
    let mut pallet = with_delegatee();
    assert_eq!(pallet.accept_delegations(D2, P), Ok(()));
    assert_eq!(pallet.delegate(A, D, 50), Ok(()));
    // self-delegation is seen before the missing register
    assert_eq!(pallet.check_delegate(R, R, 50, 50, 10), Err(Error::InvalidDelegation));
    // the missing register before the delegator's own register
    assert_eq!(pallet.check_delegate(D, R, 50, 50, 10), Err(Error::NotDelegatee));
    // a total that would not fit is the last thing looked at
    assert_eq!(pallet.check_delegate(B, D, Balance::MAX, Balance::MAX, 10), Err(Error::BadState));
    assert_eq!(pallet.check_delegate(B, D, Balance::MAX - 50, Balance::MAX, 10), Ok(()));
}

#[test]
fn delegate_leaves_stores_alone_when_the_hold_fails() {
    let mut pallet = with_delegatee();
    pallet.currency_mut().refuse_hold = true;
    assert_eq!(pallet.delegate(A, D, 50), Err(Error::NotEnoughFunds));
    assert_eq!(pallet.delegation(A), None);
    assert_eq!(register(&pallet, D).total_delegated, 0);
    assert_consistent(&pallet);
}

#[test]
fn delegate_nothing_leaves_no_record() {
    let mut pallet = with_delegatee();
    pallet.currency_mut().minimum = 0;
    assert_eq!(pallet.delegate(A, D, 0), Ok(()));
    assert_eq!(pallet.delegation(A), None);
    assert_eq!(register(&pallet, D).total_delegated, 0);
    assert_consistent(&pallet);
}

#[test]
fn delegate_then_withdraw_restores_the_ledger() {
    let mut pallet = with_delegatee();
    assert_eq!(pallet.delegate(B, D, 70), Ok(()));
    let before = register(&pallet, D);
    assert_eq!(pallet.delegate(A, D, 100), Ok(()));
    assert_eq!(register(&pallet, D).total_delegated, 170);
    assert_eq!(pallet.delegation_withdraw(A, D, 100), Ok(()));
    assert_eq!(pallet.register(D), Some(before));
    assert_eq!(pallet.delegation(A), None);
    assert_eq!(pallet.delegation(B), Some(Delegation { delegatee: D, amount: 70 }));
    assert_eq!(pallet.currency().held(A), 0);
    assert_eq!(pallet.currency().free(A), 1_000);
    assert_consistent(&pallet);
}

#[test]
fn delegation_withdraw_of_a_part_keeps_the_rest() {
    let mut pallet = with_delegatee();
    assert_eq!(pallet.delegate(A, D, 100), Ok(()));
    assert_eq!(pallet.delegation_withdraw(A, D, 40), Ok(()));
    assert_eq!(pallet.delegation(A), Some(Delegation { delegatee: D, amount: 60 }));
    assert_eq!(register(&pallet, D).total_delegated, 60);
    assert_eq!(pallet.currency().held(A), 60);
    assert_consistent(&pallet);
}

#[test]
fn delegation_withdraw_refusals() {
    let mut pallet = with_delegatee();
    assert_eq!(pallet.accept_delegations(D2, P), Ok(()));
    assert_eq!(pallet.delegation_withdraw(A, D, 10), Err(Error::NotDelegator));
    assert_eq!(pallet.delegate(A, D, 100), Ok(()));
    assert_eq!(pallet.delegation_withdraw(A, D2, 10), Err(Error::NotDelegatee));
    assert_eq!(pallet.delegation_withdraw(A, R, 10), Err(Error::NotDelegatee));
    assert_eq!(pallet.delegation_withdraw(A, D, 101), Err(Error::NotEnoughFunds));
    assert_eq!(pallet.check_delegation_withdraw(A, D, 100), Ok(()));
    assert_eq!(pallet.delegation(A), Some(Delegation { delegatee: D, amount: 100 }));
    assert_eq!(register(&pallet, D).total_delegated, 100);
    assert_consistent(&pallet);
}

#[test]
fn update_hold_of_a_stranger_reports_a_backend_refusal_as_not_allowed() {
    let mut pallet = with_delegatee();
    pallet.staking_mut().refuse_hold = true;
    assert_eq!(pallet.update_hold(A, 77), Err(Error::NotAllowed));
    assert_eq!(pallet.update_hold(D, 0), Ok(()));
}

#[test]
fn delegation_withdraw_with_a_short_release_is_fatal() {
    let mut pallet = with_delegatee();
    assert_eq!(pallet.delegate(A, D, 100), Ok(()));
    pallet.currency_mut().release_short_by = 1;
    let result = pallet.delegation_withdraw(A, D, 100);
    assert_eq!(result, Err(Error::BadState));
    assert!(Error::BadState.is_fatal());
    assert!(!Error::NotEnoughFunds.is_fatal());
    assert_eq!(pallet.delegation(A), Some(Delegation { delegatee: D, amount: 100 }));
    assert_eq!(register(&pallet, D).total_delegated, 100);
}

#[test]
fn settle_judges_the_released_amount() {
    assert_eq!(settle(100, Ok(100)), Ok(()));
    assert_eq!(settle(100, Ok(99)), Err(Error::BadState));
    assert_eq!(settle(100, Ok(101)), Err(Error::BadState));
    assert_eq!(settle(100, Err(Refusal)), Err(Error::BadState));
    assert_eq!(settle(0, Ok(0)), Ok(()));
}

#[test]
fn or_fail_with_replaces_only_the_error() {
    assert_eq!(or_fail_with(Ok::<bool, Refusal>(true), Error::WithdrawFailed), Ok(true));
    assert_eq!(or_fail_with(Ok::<bool, Refusal>(false), Error::BadState), Ok(false));
    assert_eq!(
        or_fail_with(Err::<bool, Refusal>(Refusal), Error::WithdrawFailed),
        Err(Error::WithdrawFailed)
    );
    assert_eq!(or_fail_with(Err::<(), Refusal>(Refusal), Error::BadState), Err(Error::BadState));
}

#[test]
fn withdraw_asks_the_backend_first() {
    let mut pallet = with_delegatee();
    assert_eq!(pallet.delegate(A, D, 100), Ok(()));
    assert_eq!(pallet.withdraw(A, D, 30, 2), Ok(()));
    assert_eq!(pallet.staking().withdrawn, vec![(D, 30, 2)]);
    assert_eq!(pallet.delegation(A), Some(Delegation { delegatee: D, amount: 70 }));
    assert_eq!(register(&pallet, D).total_delegated, 70);
    assert_eq!(pallet.currency().held(A), 70);
    assert_consistent(&pallet);
}

#[test]
fn withdraw_fails_when_the_backend_refuses() {
    let mut pallet = with_delegatee();
    assert_eq!(pallet.delegate(A, D, 100), Ok(()));
    pallet.staking_mut().refuse_withdraw = true;
    assert_eq!(pallet.withdraw(A, D, 30, 0), Err(Error::WithdrawFailed));
    // the backend is asked before the delegator is looked at
    assert_eq!(pallet.withdraw(B, D, 30, 0), Err(Error::WithdrawFailed));
    assert_eq!(pallet.delegation(A), Some(Delegation { delegatee: D, amount: 100 }));
    assert_eq!(pallet.currency().held(A), 100);
    pallet.staking_mut().refuse_withdraw = false;
    assert_eq!(pallet.withdraw(B, D, 30, 0), Err(Error::NotDelegator));
}

#[test]
fn update_bond_bonds_what_is_not_bonded_yet() {
    let mut pallet = with_delegatee();
    assert_eq!(pallet.update_bond(R), Err(Error::NotDelegatee));
    assert_eq!(pallet.delegate(A, D, 100), Ok(()));
    assert_eq!(pallet.unbonded_balance(D), 100);
    assert_eq!(pallet.update_bond(D), Ok(()));
    assert_eq!(
        pallet.staking().commands,
        vec![BondCommand::Bond { who: D, amount: 100, payee: P }]
    );
    assert_eq!(pallet.update_hold(D, 100), Ok(()));
    assert_eq!(pallet.delegate(B, D, 40), Ok(()));
    assert_eq!(pallet.update_bond(D), Ok(()));
    assert_eq!(
        pallet.staking().commands,
        vec![
            BondCommand::Bond { who: D, amount: 100, payee: P },
            BondCommand::BondExtra { who: D, amount: 40 },
        ]
    );
    assert_consistent(&pallet);
}

#[test]
fn update_bond_twice_bonds_once() {
    let mut pallet = with_delegatee();
    assert_eq!(pallet.delegate(A, D, 100), Ok(()));
    assert_eq!(pallet.update_bond(D), Ok(()));
    // the backend reports what it has bonded
    assert_eq!(pallet.update_hold(D, 100), Ok(()));
    assert_eq!(pallet.update_bond(D), Ok(()));
    let non_zero = pallet.staking().commands.iter().filter(|c| c.amount() != 0).count();
    assert_eq!(non_zero, 1);
    assert_eq!(pallet.staking().commands.len(), 1);
    assert_eq!(pallet.bond_command(D, true), Ok(None));
    assert_eq!(pallet.bond_command(D, false), Ok(None));
}

#[test]
fn update_bond_with_nothing_to_bond_asks_nothing() {
    let mut pallet = with_delegatee();
    pallet.staking_mut().refuse_bond = true;
    assert_eq!(pallet.update_bond(D), Ok(()));
    assert!(pallet.staking().commands.is_empty());
}

#[test]
fn update_bond_reports_a_backend_refusal_as_not_allowed() {
    let mut pallet = with_delegatee();
    assert_eq!(pallet.delegate(A, D, 100), Ok(()));
    pallet.staking_mut().refuse_bond = true;
    assert_eq!(pallet.update_bond(D), Err(Error::NotAllowed));
    assert_eq!(register(&pallet, D).hold, 0);
}

#[test]
fn bond_command_names_amount_and_payee() {
    let mut pallet = with_delegatee();
    assert_eq!(pallet.bond_command(R, false), Err(Error::NotDelegatee));
    assert_eq!(pallet.delegate(A, D, 100), Ok(()));
    assert_eq!(pallet.update_hold(D, 30), Ok(()));
    assert_eq!(
        pallet.bond_command(D, false),
        Ok(Some(BondCommand::Bond { who: D, amount: 70, payee: P }))
    );
    assert_eq!(pallet.bond_command(D, true), Ok(Some(BondCommand::BondExtra { who: D, amount: 70 })));
    assert_eq!(BondCommand::BondExtra { who: D, amount: 70 }.amount(), 70);
    assert_eq!(BondCommand::Bond { who: D, amount: 7, payee: P }.amount(), 7);
}

#[test]
fn unbond_goes_to_the_backend_only() {
    let mut pallet = with_delegatee();
    assert_eq!(pallet.delegate(A, D, 100), Ok(()));
    assert_eq!(pallet.update_bond(D), Ok(()));
    assert_eq!(pallet.update_hold(D, 100), Ok(()));
    let before = register(&pallet, D);
    assert_eq!(pallet.unbond(D, 40), Ok(()));
    assert_eq!(pallet.staking().unbonded, vec![(D, 40)]);
    assert_eq!(pallet.register(D), Some(before));
    assert_eq!(pallet.unbond(D, 1_000), Err(Error::NotAllowed));
    assert_eq!(pallet.register(D), Some(before));
}

#[test]
fn update_hold_above_the_total_fails() {
    let mut pallet = with_delegatee();
    assert_eq!(pallet.delegate(A, D, 500), Ok(()));
    let before = register(&pallet, D);
    assert_eq!(before.total_delegated, 500);
    assert_eq!(pallet.update_hold(D, 1_000), Err(Error::NotEnoughFunds));
    assert_eq!(pallet.register(D), Some(before));
    assert_eq!(pallet.update_hold(D, 500), Ok(()));
    assert_eq!(register(&pallet, D).hold, 500);
    assert_eq!(pallet.unbonded_balance(D), 0);
    assert_consistent(&pallet);
}

#[test]
fn update_hold_of_a_stranger_goes_to_the_backend() {
    let mut pallet = with_delegatee();
    assert_eq!(pallet.update_hold(A, 77), Ok(()));
    assert_eq!(pallet.staking().holds, vec![(A, 77)]);
    assert_eq!(pallet.update_hold(D, 0), Ok(()));
    assert_eq!(pallet.staking().holds, vec![(A, 77)]);
}

#[test]
fn release_clears_an_empty_register_and_unbonds_a_full_one() {
    let mut pallet = with_delegatee();
    assert_eq!(pallet.accept_delegations(D2, P), Ok(()));
    assert_eq!(pallet.delegate(A, D, 100), Ok(()));
    assert_eq!(pallet.update_hold(D, 60), Ok(()));
    pallet.release(D);
    assert_eq!(
        pallet.register(D),
        Some(DelegationRegister {
            payee: P,
            total_delegated: 100,
            hold: 0,
            pending_slash: 0,
            blocked: false,
        })
    );
    pallet.release(D2);
    assert_eq!(pallet.register(D2), None);
    pallet.release(A);
    assert_eq!(pallet.staking().released, vec![A]);
    assert_consistent(&pallet);
}

#[test]
fn kill_delegatee_needs_an_idle_register() {
    let mut pallet = with_delegatee();
    assert_eq!(pallet.kill_delegatee(R), Err(Error::NotDelegatee));
    assert_eq!(pallet.delegate(A, D, 100), Ok(()));
    assert_eq!(pallet.kill_delegatee(D), Err(Error::NotAllowed));
    assert_eq!(pallet.delegation_withdraw(A, D, 100), Ok(()));
    assert_eq!(pallet.kill_delegatee(D), Ok(()));
    assert_eq!(pallet.register(D), None);
    assert!(!pallet.is_delegatee(D));
    assert_eq!(pallet.delegate(A, D, 100), Err(Error::NotDelegatee));
    assert_consistent(&pallet);
}

#[test]
fn apply_slash_takes_no_more_than_is_pending() {
    let mut pallet = with_delegatee();
    assert_eq!(pallet.delegate(A, D, 100), Ok(()));
    assert_eq!(pallet.apply_slash(R, A, 1, None), Err(Error::NotDelegatee));
    assert_eq!(pallet.apply_slash(D, B, 1, None), Err(Error::NotDelegator));
    assert_eq!(pallet.apply_slash(D, A, 1, Some(R)), Err(Error::UnappliedSlash));
    assert_eq!(pallet.check_apply_slash(D, A, 1), Err(Error::UnappliedSlash));
    assert_eq!(pallet.apply_slash(D, A, 0, Some(R)), Ok(()));
    assert_eq!(pallet.delegation(A), Some(Delegation { delegatee: D, amount: 100 }));
    assert_eq!(register(&pallet, D).total_delegated, 100);
    assert_eq!(pallet.currency().held(A), 100);
    assert_consistent(&pallet);
}

#[test]
fn queries_tell_delegatees_from_others() {
    let mut pallet = with_delegatee();
    assert_eq!(pallet.delegate(A, D, 100), Ok(()));
    assert_eq!(pallet.update_hold(D, 30), Ok(()));
    assert_eq!(pallet.delegated_balance(D), 100);
    assert_eq!(pallet.unbonded_balance(D), 70);
    assert_eq!(pallet.delegated_balance(A), 0);
    assert_eq!(pallet.unbonded_balance(A), 0);
    assert_eq!(pallet.stakeable_balance(D), 100);
    assert_eq!(pallet.stakeable_balance(A), 900);
    assert_eq!(pallet.stake_type(D), StakeBalanceType::Delegated);
    assert_eq!(pallet.stake_type(A), StakeBalanceType::Direct);
    assert!(pallet.restrict_reward_destination(D, None));
    assert!(pallet.restrict_reward_destination(D, Some(R)));
    assert!(!pallet.restrict_reward_destination(D, Some(P)));
    assert!(!pallet.restrict_reward_destination(A, None));
    assert!(!pallet.restrict_reward_destination(A, Some(R)));
}

#[test]
fn register_balances_saturate() {
    let register = DelegationRegister {
        payee: P,
        total_delegated: 100,
        hold: 30,
        pending_slash: 20,
        blocked: false,
    };
    assert_eq!(register.delegated_balance(), 80);
    assert_eq!(register.unbonded_balance(), 70);
    let broken = DelegationRegister { hold: 130, pending_slash: 120, ..register };
    assert_eq!(broken.delegated_balance(), 0);
    assert_eq!(broken.unbonded_balance(), 0);
    assert_eq!(register.update_hold(55), DelegationRegister { hold: 55, ..register });
    assert_eq!(
        DelegationRegister::new(P),
        DelegationRegister { payee: P, total_delegated: 0, hold: 0, pending_slash: 0, blocked: false }
    );
    assert_eq!(DelegationRegister::default(), DelegationRegister::new(0));
}

#[test]
fn register_balances_agree_with_the_runtime_arithmetic() {
    for (total, hold, pending) in [
        (100u128, 30u128, 20u128),
        (100, 100, 100),
        (100, 101, 0),
        (0, 1, Balance::MAX),
        (Balance::MAX, 0, Balance::MAX),
    ] {
        let register = DelegationRegister {
            payee: P,
            total_delegated: total,
            hold,
            pending_slash: pending,
            blocked: false,
        };
        assert_eq!(register.unbonded_balance(), Saturating::saturating_sub(total, hold));
        assert_eq!(register.delegated_balance(), Saturating::saturating_sub(total, pending));
    }
}

#[test]
fn delegate_then_withdraw_restores_an_existing_record() {
    let mut pallet = with_delegatee();
    assert_eq!(pallet.delegate(A, D, 50), Ok(()));
    let record = pallet.delegation(A);
    let before = pallet.register(D);
    assert_eq!(pallet.delegate(A, D, 100), Ok(()));
    assert_eq!(pallet.delegation_withdraw(A, D, 100), Ok(()));
    assert_eq!(pallet.delegation(A), record);
    assert_eq!(pallet.register(D), before);
    assert_consistent(&pallet);
}

#[test]
fn migrate_delegator_moves_a_slice() {
    let mut pallet = with_delegatee();
    assert_eq!(pallet.delegate(A, D, 100), Ok(()));
    assert_eq!(pallet.update_hold(D, 100), Ok(()));
    assert_eq!(pallet.migrate_delegator(D, A, B, 40), Ok(()));
    assert_eq!(pallet.delegation(A), Some(Delegation { delegatee: D, amount: 60 }));
    assert_eq!(pallet.delegation(B), Some(Delegation { delegatee: D, amount: 40 }));
    assert_eq!(register(&pallet, D).total_delegated, 100);
    assert_eq!(register(&pallet, D).hold, 100);
    assert_eq!(pallet.currency().held(A), 60);
    assert_eq!(pallet.currency().free(A), 900);
    assert_eq!(pallet.currency().held(B), 40);
    assert_eq!(pallet.currency().free(B), 1_000);
    assert_consistent(&pallet);
}

#[test]
fn migrate_delegator_refusals_leave_the_stores_alone() {
    let mut pallet = with_delegatee();
    assert_eq!(pallet.delegate(A, D, 100), Ok(()));
    assert_eq!(pallet.migrate_delegator(D, A, B, 9), Err(Error::NotEnoughFunds));
    assert_eq!(pallet.migrate_delegator(R, A, B, 40), Err(Error::NotDelegatee));
    assert_eq!(pallet.migrate_delegator(D, B, A, 40), Err(Error::NotDelegator));
    assert_eq!(pallet.migrate_delegator(D, A, B, 101), Err(Error::NotEnoughFunds));
    assert_eq!(pallet.check_migrate_delegator(D, 9, 10), Err(Error::NotEnoughFunds));
    assert_eq!(pallet.check_migrate_delegator(R, 10, 10), Err(Error::NotDelegatee));
    assert_eq!(pallet.check_migrate_delegator(D, 10, 10), Ok(()));
    assert_eq!(pallet.delegation(A), Some(Delegation { delegatee: D, amount: 100 }));
    assert_eq!(pallet.delegation(B), None);
    assert_eq!(register(&pallet, D).total_delegated, 100);
    assert_consistent(&pallet);
}

#[test]
fn migrate_delegator_rolls_back_when_the_transfer_fails() {
    let mut pallet = with_delegatee();
    assert_eq!(pallet.delegate(A, D, 100), Ok(()));
    pallet.currency_mut().refuse_transfer = true;
    assert_eq!(pallet.migrate_delegator(D, A, B, 100), Err(Error::BadState));
    assert_eq!(pallet.delegation(A), Some(Delegation { delegatee: D, amount: 100 }));
    assert_eq!(pallet.delegation(B), None);
    assert_eq!(register(&pallet, D).total_delegated, 100);
}

#[test]
fn migrate_delegator_rolls_back_when_the_new_delegator_is_refused() {
    let mut pallet = with_delegatee();
    assert_eq!(pallet.accept_delegations(D2, P), Ok(()));
    assert_eq!(pallet.delegate(A, D, 100), Ok(()));
    // a delegatee cannot take the slice over
    assert_eq!(pallet.migrate_delegator(D, A, D2, 100), Err(Error::InvalidDelegation));
    assert_eq!(pallet.delegation(A), Some(Delegation { delegatee: D, amount: 100 }));
    assert_eq!(pallet.delegation(D2), None);
    assert_eq!(register(&pallet, D).total_delegated, 100);
}

#[test]
fn migrate_accept_delegations_turns_a_nominator_into_a_delegatee() {
    let mut pallet = fresh();
    pallet.staking_mut().status.insert(D, StakerStatus::Nominator(vec![R]));
    pallet.staking_mut().stake.insert(D, Stake { total: 400, active: 300 });
    assert_eq!(pallet.migrate_accept_delegations(D, A, P), Ok(()));
    assert_eq!(pallet.staking().unlocked, vec![D]);
    assert_eq!(
        pallet.register(D),
        Some(DelegationRegister {
            payee: P,
            total_delegated: 400,
            hold: 0,
            pending_slash: 0,
            blocked: false,
        })
    );
    assert_eq!(pallet.delegation(A), Some(Delegation { delegatee: D, amount: 400 }));
    assert_eq!(pallet.currency().free(D), 600);
    assert_eq!(pallet.currency().free(A), 1_000);
    assert_eq!(pallet.currency().held(A), 400);
    assert_consistent(&pallet);
}

#[test]
fn migrate_accept_delegations_refusals() {
    let nominator = Ok(StakerStatus::Nominator(vec![]));
    assert_eq!(
        Pallet::<Runtime>::check_migrate_accept_delegations(D, D, 5, &nominator),
        Err(Error::InvalidDelegation)
    );
    assert_eq!(
        Pallet::<Runtime>::check_migrate_accept_delegations(D, A, 0, &nominator),
        Err(Error::NotEnoughFunds)
    );
    assert_eq!(
        Pallet::<Runtime>::check_migrate_accept_delegations(D, A, 5, &Ok(StakerStatus::Validator)),
        Err(Error::InvalidDelegation)
    );
    assert_eq!(
        Pallet::<Runtime>::check_migrate_accept_delegations(D, A, 5, &Ok(StakerStatus::Idle)),
        Err(Error::InvalidDelegation)
    );
    assert_eq!(
        Pallet::<Runtime>::check_migrate_accept_delegations(D, A, 5, &Err(Refusal)),
        Err(Error::InvalidDelegation)
    );
    assert_eq!(Pallet::<Runtime>::check_migrate_accept_delegations(D, A, 5, &nominator), Ok(()));

    let mut pallet = fresh();
    assert_eq!(pallet.migrate_accept_delegations(D, D, P), Err(Error::InvalidDelegation));
    // an account that the backend does not know
    assert_eq!(pallet.migrate_accept_delegations(D, A, P), Err(Error::InvalidDelegation));
    pallet.staking_mut().status.insert(D, StakerStatus::Validator);
    assert_eq!(pallet.migrate_accept_delegations(D, A, P), Err(Error::InvalidDelegation));
    // a proxy without funds
    assert_eq!(pallet.migrate_accept_delegations(D, R, P), Err(Error::NotEnoughFunds));
    // a nominator whose stake the backend does not know
    pallet.staking_mut().status.insert(D, StakerStatus::Nominator(vec![R]));
    assert_eq!(pallet.migrate_accept_delegations(D, A, P), Err(Error::BadState));
    // a backend that does not unlock
    pallet.staking_mut().stake.insert(D, Stake { total: 400, active: 400 });
    pallet.staking_mut().refuse_unlock = true;
    assert_eq!(pallet.migrate_accept_delegations(D, A, P), Err(Error::NotAllowed));
    assert_eq!(pallet.register(D), None);
    assert_eq!(pallet.delegation(A), None);
}

#[test]
fn migrate_accept_delegations_rolls_back_the_register() {
    let mut pallet = fresh();
    pallet.staking_mut().status.insert(D, StakerStatus::Nominator(vec![R]));
    pallet.staking_mut().stake.insert(D, Stake { total: 400, active: 400 });
    // the proxy is itself a delegatee, so it cannot delegate
    assert_eq!(pallet.accept_delegations(A, P), Ok(()));
    assert_eq!(pallet.migrate_accept_delegations(D, A, P), Err(Error::InvalidDelegation));
    assert_eq!(pallet.register(D), None);
    assert_eq!(pallet.delegation(A), None);
    assert_consistent(&pallet);
}

#[test]
fn migrate_accept_delegations_reports_a_failed_transfer_as_bad_state() {
    let mut pallet = fresh();
    pallet.staking_mut().status.insert(D, StakerStatus::Nominator(vec![R]));
    pallet.staking_mut().stake.insert(D, Stake { total: 400, active: 400 });
    pallet.currency_mut().refuse_transfer = true;
    assert_eq!(pallet.migrate_accept_delegations(D, A, P), Err(Error::BadState));
    assert_eq!(pallet.register(D), None);
}

#[test]
fn invariants_hold_along_a_longer_run() {
    let mut pallet = with_delegatee();
    assert_eq!(pallet.accept_delegations(D2, R), Ok(()));
    assert_consistent(&pallet);
    assert_eq!(pallet.delegate(A, D, 300), Ok(()));
    assert_consistent(&pallet);
    assert_eq!(pallet.delegate(B, D2, 200), Ok(()));
    assert_consistent(&pallet);
    assert_eq!(pallet.update_bond(D), Ok(()));
    assert_eq!(pallet.update_hold(D, 300), Ok(()));
    assert_consistent(&pallet);
    assert_eq!(pallet.delegate(A, D, 100), Ok(()));
    assert_consistent(&pallet);
    assert_eq!(pallet.migrate_delegator(D, A, R, 50), Ok(()));
    assert_eq!(pallet.delegation(R), Some(Delegation { delegatee: D, amount: 50 }));
    assert_consistent(&pallet);
    assert_eq!(pallet.withdraw(A, D, 100, 0), Ok(()));
    assert_consistent(&pallet);
    assert_eq!(pallet.block_delegations(D2), Ok(()));
    assert_eq!(pallet.delegation_withdraw(B, D2, 200), Ok(()));
    assert_eq!(pallet.kill_delegatee(D2), Ok(()));
    assert_consistent(&pallet);
    assert_eq!(register(&pallet, D).total_delegated, 300);
    assert_eq!(register(&pallet, D).hold, 300);
}

fn bank() -> Bank {
    let mut bank = Bank::default();
    bank.minimum = 10;
    bank.free.insert(A, 1_000);
    bank.free.insert(B, 1_000);
    bank
}

/// A ledger in which D holds 100 of A and 50 of B, with 120 bonded and a
/// slash of 30 pending.
fn slashed() -> Pallet<Runtime> {
    let mut bank = bank();
    bank.held.insert(A, 100);
    bank.held.insert(B, 50);
    let registers = vec![(
        D,
        DelegationRegister { payee: P, total_delegated: 150, hold: 120, pending_slash: 30, blocked: false },
    )];
    let records = vec![
        (A, Delegation { delegatee: D, amount: 100 }),
        (B, Delegation { delegatee: D, amount: 50 }),
    ];
    match Pallet::restore(bank, Backend::default(), &registers, &records) {
        Ok(pallet) => pallet,
        Err(e) => panic!("the listings describe a ledger: {:?}", e),
    }
}

fn refused(
    registers: Vec<(AccountId, DelegationRegister)>,
    records: Vec<(AccountId, Delegation)>,
) -> bool {
    match Pallet::<Runtime>::restore(bank(), Backend::default(), &registers, &records) {
        Ok(_) => false,
        Err(e) => e == Error::BadState,
    }
}

fn plain(total_delegated: Balance) -> DelegationRegister {
    DelegationRegister { payee: P, total_delegated, hold: 0, pending_slash: 0, blocked: false }
}

#[test]
fn restore_rebuilds_what_is_listed() {
    let pallet = slashed();
    assert_eq!(
        pallet.register(D),
        Some(DelegationRegister {
            payee: P,
            total_delegated: 150,
            hold: 120,
            pending_slash: 30,
            blocked: false,
        })
    );
    assert_eq!(pallet.delegation(A), Some(Delegation { delegatee: D, amount: 100 }));
    assert_eq!(pallet.delegation(B), Some(Delegation { delegatee: D, amount: 50 }));
    assert_eq!(pallet.delegation(D), None);
    assert_eq!(pallet.delegated_balance(D), 120);
    assert_eq!(pallet.unbonded_balance(D), 30);
    assert_eq!(pallet.stakeable_balance(D), 120);
    assert_consistent(&pallet);
}

#[test]
fn restore_of_nothing_is_the_empty_ledger() {
    let pallet = match Pallet::<Runtime>::restore(bank(), Backend::default(), &vec![], &vec![]) {
        Ok(pallet) => pallet,
        Err(e) => panic!("nothing listed describes the empty ledger: {:?}", e),
    };
    assert_eq!(pallet.register(D), None);
    assert_eq!(pallet.delegation(A), None);
}

#[test]
fn restore_refuses_listings_that_describe_no_ledger() {
    let a_to_d = |amount| (A, Delegation { delegatee: D, amount });
    // a register listed twice
    assert!(refused(vec![(D, plain(0)), (D, plain(0))], vec![]));
    // a delegator listed twice
    assert!(refused(vec![(D, plain(20))], vec![a_to_d(10), a_to_d(10)]));
    // a record that holds nothing
    assert!(refused(vec![(D, plain(0))], vec![a_to_d(0)]));
    // a record that points at an account without a register
    assert!(refused(vec![(D2, plain(10))], vec![a_to_d(10)]));
    // a total that is not the sum
    assert!(refused(vec![(D, plain(11))], vec![a_to_d(10)]));
    assert!(refused(vec![(D, plain(10))], vec![]));
    assert!(refused(
        vec![(D, plain(10)), (D2, plain(10))],
        vec![a_to_d(10), (B, Delegation { delegatee: D, amount: 10 })]
    ));
    // a sum that does not fit
    assert!(refused(
        vec![(D, plain(Balance::MAX))],
        vec![a_to_d(Balance::MAX), (B, Delegation { delegatee: D, amount: 1 })]
    ));
    // more bonded, or more slash pending, than is delegated
    assert!(refused(vec![(D, DelegationRegister { hold: 11, ..plain(10) })], vec![a_to_d(10)]));
    assert!(refused(
        vec![(D, DelegationRegister { pending_slash: 11, ..plain(10) })],
        vec![a_to_d(10)]
    ));
    // and the same listing, sound
    assert!(!refused(
        vec![(D, DelegationRegister { hold: 10, pending_slash: 10, ..plain(10) })],
        vec![a_to_d(10)]
    ));
}

#[test]
fn update_hold_below_the_pending_slash_fails() {
    let mut pallet = slashed();
    let before = register(&pallet, D);
    assert_eq!(pallet.update_hold(D, 29), Err(Error::UnappliedSlash));
    assert_eq!(pallet.register(D), Some(before));
    assert_eq!(pallet.update_hold(D, 151), Err(Error::NotEnoughFunds));
    assert_eq!(pallet.update_hold(D, 30), Ok(()));
    assert_eq!(register(&pallet, D).hold, 30);
    assert_consistent(&pallet);
}

#[test]
fn apply_slash_takes_the_pending_slash_from_the_delegator() {
    let mut pallet = slashed();
    assert_eq!(pallet.apply_slash(D, A, 20, Some(R)), Ok(()));
    assert_eq!(pallet.delegation(A), Some(Delegation { delegatee: D, amount: 80 }));
    assert_eq!(
        pallet.register(D),
        Some(DelegationRegister {
            payee: P,
            total_delegated: 130,
            hold: 120,
            pending_slash: 10,
            blocked: false,
        })
    );
    assert_eq!(pallet.currency().held(A), 80);
    assert_eq!(pallet.currency().free(A), 1_000);
    assert_eq!(pallet.currency().free(R), 20);
    assert_consistent(&pallet);
    assert_eq!(pallet.apply_slash(D, B, 10, None), Ok(()));
    assert_eq!(pallet.delegation(B), Some(Delegation { delegatee: D, amount: 40 }));
    assert_eq!(register(&pallet, D).pending_slash, 0);
    assert_eq!(register(&pallet, D).total_delegated, 120);
    assert_eq!(pallet.currency().held(B), 40);
    assert_consistent(&pallet);
}

#[test]
fn apply_slash_removes_a_record_that_reaches_zero() {
    let mut bank = bank();
    bank.held.insert(A, 30);
    bank.held.insert(B, 70);
    let registers = vec![(D, DelegationRegister { pending_slash: 30, ..plain(100) })];
    let records = vec![
        (A, Delegation { delegatee: D, amount: 30 }),
        (B, Delegation { delegatee: D, amount: 70 }),
    ];
    let mut pallet = match Pallet::<Runtime>::restore(bank, Backend::default(), &registers, &records) {
        Ok(pallet) => pallet,
        Err(e) => panic!("the listings describe a ledger: {:?}", e),
    };
    assert_eq!(pallet.apply_slash(D, A, 30, None), Ok(()));
    assert_eq!(pallet.delegation(A), None);
    assert_eq!(pallet.register(D), Some(plain(70)));
    assert_consistent(&pallet);
}

#[test]
fn apply_slash_refusals_leave_the_stores_alone() {
    let mut pallet = slashed();
    let before = register(&pallet, D);
    assert_eq!(pallet.apply_slash(D, A, 31, None), Err(Error::UnappliedSlash));
    assert_eq!(pallet.apply_slash(D, P, 10, None), Err(Error::NotDelegator));
    assert_eq!(pallet.apply_slash(P, A, 10, None), Err(Error::NotDelegatee));
    assert_eq!(pallet.register(D), Some(before));

    // more than the delegator has delegated
    let mut bank = bank();
    bank.held.insert(A, 10);
    bank.held.insert(B, 90);
    let registers = vec![(D, DelegationRegister { pending_slash: 30, ..plain(100) })];
    let records = vec![
        (A, Delegation { delegatee: D, amount: 10 }),
        (B, Delegation { delegatee: D, amount: 90 }),
    ];
    let mut pallet = match Pallet::<Runtime>::restore(bank, Backend::default(), &registers, &records) {
        Ok(pallet) => pallet,
        Err(e) => panic!("the listings describe a ledger: {:?}", e),
    };
    assert_eq!(pallet.apply_slash(D, A, 11, None), Err(Error::NotEnoughFunds));
    assert_eq!(pallet.delegation(A), Some(Delegation { delegatee: D, amount: 10 }));

    // more than is delegated and not bonded
    assert_eq!(pallet.update_hold(D, 95), Ok(()));
    assert_eq!(pallet.apply_slash(D, B, 6, None), Err(Error::NotEnoughFunds));
    assert_eq!(pallet.apply_slash(D, B, 5, None), Ok(()));
    assert_eq!(register(&pallet, D).total_delegated, 95);
    assert_consistent(&pallet);
}

#[test]
fn apply_slash_with_a_short_forfeit_is_fatal() {
    let mut pallet = slashed();
    pallet.currency_mut().forfeit_short_by = 1;
    let before = register(&pallet, D);
    assert_eq!(pallet.apply_slash(D, A, 20, None), Err(Error::BadState));
    assert_eq!(pallet.register(D), Some(before));
    assert_eq!(pallet.delegation(A), Some(Delegation { delegatee: D, amount: 100 }));
}

#[test]
fn withdrawal_within_the_headroom_keeps_the_bounds() {
    let mut pallet = slashed();
    // 150 delegated, 120 bonded, 30 pending: 30 can go
    assert_eq!(pallet.delegation_withdraw(B, D, 30), Ok(()));
    assert_eq!(register(&pallet, D).total_delegated, 120);
    assert_consistent(&pallet);
}

#[test]
fn withdrawal_beyond_the_headroom_waits_for_the_backend_to_lower_the_hold() {
    let mut pallet = slashed();
    assert_eq!(pallet.delegation_withdraw(B, D, 31), Ok(()));
    let register = register(&pallet, D);
    assert_eq!(register.total_delegated, 119);
    assert_eq!(register.hold, 120);
    assert_eq!(register.unbonded_balance(), 0);
    assert_eq!(pallet.update_bond(D), Ok(()));
    assert!(pallet.staking().commands.is_empty());
    assert_eq!(pallet.update_hold(D, 119), Ok(()));
    assert_consistent(&pallet);
}

#[test]
fn kill_delegatee_with_a_bonded_amount_fails() {
    let mut pallet = with_delegatee();
    assert_eq!(pallet.delegate(A, D, 100), Ok(()));
    assert_eq!(pallet.update_hold(D, 100), Ok(()));
    assert_eq!(pallet.delegation_withdraw(A, D, 100), Ok(()));
    // nothing is delegated, but 100 are still bonded
    assert_eq!(pallet.kill_delegatee(D), Err(Error::NotAllowed));
    pallet.release(D);
    assert_eq!(pallet.register(D), None);
}
