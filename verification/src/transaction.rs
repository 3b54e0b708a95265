//! A transaction as blocks and the node's mempool hold it.

use vstd::prelude::*;

verus! {

/// A transaction: its id, and its contents in the encoding in which the
/// node stores and forwards them. The logic of this library reads the id;
/// the contents are carried through unchanged.
#[derive(Debug)]
pub struct Transaction {
    pub id: String,
    pub data: Vec<u8>,
}

/// The mathematical value of a transaction.
pub struct TxModel {
    pub id: Seq<char>,
    pub data: Seq<u8>,
}

impl View for Transaction {
    type V = TxModel;

    open spec fn view(&self) -> TxModel {
        TxModel { id: self.id@, data: self.data@ }
    }
}

/// The values of a sequence of transactions.
pub open spec fn tx_models(txs: Seq<Transaction>) -> Seq<TxModel> {
    txs.map_values(|t: Transaction| t@)
}

impl Transaction {
    /// A transaction with the given id and contents.
    pub fn new(id: String, data: Vec<u8>) -> (tx: Transaction)
        ensures
            tx@ == (TxModel { id: id@, data: data@ }),
    {
        Transaction { id, data }
    }

    /// A copy of this transaction.
    pub fn duplicate(&self) -> (tx: Transaction)
        ensures
            tx@ == self@,
    {
        Transaction { id: self.id.clone(), data: self.data.clone() }
    }
}

impl Clone for Transaction {
    fn clone(&self) -> (tx: Transaction)
        ensures
            tx@ == self@,
    {
        self.duplicate()
    }
}

} // verus!
