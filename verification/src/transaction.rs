//! Checking transactions before they enter the consensus.
use vstd::prelude::*;

verus! {

/// A transaction is not valid.
#[derive(Clone, Copy, Debug, PartialEq, Eq, Structural)]
pub struct InvalidTransaction {
    pub position: usize,
}

/// Takes every transaction: the executor checks them.
#[derive(Clone, Copy, Debug, PartialEq, Eq, Structural)]
pub struct NoopTransactionVerifier;

impl NoopTransactionVerifier {
    /// Takes all transactions of a batch.
    pub fn verify_batch(&self, batch: &Vec<Vec<u8>>) -> (r: Result<(), InvalidTransaction>)
        ensures
            r is Ok,
    {
        Ok(())
    }

    /// Takes all transactions of a batch: the list of those voted against is
    /// empty.
    pub fn verify_and_vote_batch(&self, batch: &Vec<Vec<u8>>) -> (r: Result<
        Vec<u16>,
        InvalidTransaction,
    >)
        ensures
            r matches Ok(v) && v@.len() == 0,
    {
        Ok(Vec::new())
    }
}

} // verus!
