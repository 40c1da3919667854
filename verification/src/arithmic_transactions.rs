//! The arithmic transactions that accompany a block.

use vstd::prelude::*;

verus! {

/// The arithmic transactions of one block, in order.
#[derive(Clone, Debug, PartialEq, Eq)]
pub struct ArithmicTransactions {
    /// The transactions.
    pub transactions: Vec<u128>,
}

impl View for ArithmicTransactions {
    type V = Seq<u128>;

    open spec fn view(&self) -> Seq<u128> {
        self.transactions@
    }
}

impl ArithmicTransactions {
    /// The given transactions, in the given order.
    pub fn new(transactions: Vec<u128>) -> (created: ArithmicTransactions)
        ensures
            created@ == transactions@,
            created.transactions == transactions,
    {
        ArithmicTransactions { transactions }
    }

    /// The transactions, in order.
    pub fn transactions(&self) -> (transactions: &Vec<u128>)
        ensures
            transactions@ == self@,
            *transactions == self.transactions,
    {
        &self.transactions
    }
}

} // verus!
