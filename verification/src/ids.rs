//! Identifiers and quantities shared by every part of the model.

use vstd::prelude::*;

verus! {

/// An amount of gas, in giga-gas.
pub type GGas = u64;

/// A step of simulated time.
pub type Round = u64;

/// Names one shard of the chain.
#[derive(Clone, Copy, Debug, PartialEq, Eq, Structural, Hash)]
pub struct ShardId(pub usize);

/// Names one transaction.
#[derive(Clone, Copy, Debug, PartialEq, Eq, Structural, Hash)]
pub struct TransactionId(pub u64);

/// Names one receipt: the transaction it belongs to, and its number among the
/// receipts of that transaction.
#[derive(Clone, Copy, Debug, PartialEq, Eq, Structural, Hash)]
pub struct ReceiptId {
    pub transaction_id: TransactionId,
    pub index: u64,
}

impl ReceiptId {
    /// The transaction that this receipt belongs to.
    pub fn transaction_id(&self) -> (t: TransactionId)
        ensures
            t == self.transaction_id,
    {
        self.transaction_id
    }

    /// The identifier as one number: the transaction in the upper 64 bits,
    /// the index in the lower 64.
    pub open spec fn spec_key(self) -> u128 {
        (self.transaction_id.0 * 0x1_0000_0000_0000_0000 + self.index) as u128
    }

    /// Computes [`Self::spec_key`]. Collections that look receipts up by
    /// identifier are keyed by this number.
    pub fn key(&self) -> (k: u128)
        ensures
            k == self.spec_key(),
    {
        let upper: u128 = self.transaction_id.0 as u128;
        let lower: u128 = self.index as u128;
        upper * 0x1_0000_0000_0000_0000 + lower
    }

    /// Two identifiers with the same key are the same identifier.
    pub proof fn lemma_key_injective(a: ReceiptId, b: ReceiptId)
        requires
            a.spec_key() == b.spec_key(),
        ensures
            a == b,
    {
    }
}

} // verus!
