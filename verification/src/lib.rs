//! A delegated-staking ledger: many delegators pool funds behind one
//! delegatee, which presents the aggregate to a staking backend as a single
//! stake.
//!
//! The ledger keeps two stores, delegator to delegation and delegatee to
//! register, and talks to two collaborators, the currency and the staking
//! backend. [`ledger`] is the mathematical model of the stores, with every
//! operation as a function from one ledger to the next and the proof that
//! each keeps the invariants. [`pallet`] holds the operations themselves,
//! stated over that model and proved for whatever the collaborators answer.
//! [`laws`] states what holds of sequences of operations.
//!
//! Beside the ledger stand the weights of two bridge pallets, the arithmic
//! transactions of a block, and what the contract fixtures read from their
//! input.

pub mod types;
pub mod register;
pub mod delegation;
pub mod ledger;
pub mod store;
pub mod snapshot;
pub mod collaborators;
pub mod pallet;
pub mod laws;
pub mod weights;
pub mod arithmic_transactions;
pub mod fixtures;
