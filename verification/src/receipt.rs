//! A receipt: one node of a transaction's graph.

use vstd::prelude::*;
use crate::ids::{GGas, ReceiptId, Round, ShardId, TransactionId};

verus! {

/// What a [`Receipt`] holds, as a plain mathematical value.
pub struct ReceiptView {
    pub id: ReceiptId,
    pub created_at: Option<Round>,
    pub dropped_at: Option<Round>,
    pub executed_at: Option<Round>,
    pub receiver: ShardId,
    pub size: u64,
    pub attached_gas: GGas,
    pub execution_gas: GGas,
}

impl ReceiptView {
    /// No round is recorded yet: the receipt has not been created on any
    /// shard.
    pub open spec fn is_unstamped(self) -> bool {
        self.created_at is None && self.dropped_at is None && self.executed_at is None
    }

    /// The receipt has neither been executed nor dropped.
    pub open spec fn is_unresolved(self) -> bool {
        self.dropped_at is None && self.executed_at is None
    }

    /// The gas that the receipt has burnt so far: its execution gas once it
    /// has been executed, nothing before that or if it was dropped.
    pub open spec fn gas_burnt(self) -> GGas {
        if self.executed_at is Some {
            self.execution_gas
        } else {
            0
        }
    }

    /// The same receipt, created in `round`.
    pub open spec fn created(self, round: Round) -> ReceiptView {
        ReceiptView { created_at: Some(round), ..self }
    }

    /// The same receipt, executed in `round`.
    pub open spec fn executed(self, round: Round) -> ReceiptView {
        ReceiptView { executed_at: Some(round), ..self }
    }

    /// The same receipt, dropped in `round`.
    pub open spec fn dropped(self, round: Round) -> ReceiptView {
        ReceiptView { dropped_at: Some(round), ..self }
    }
}

/// A unit of deferred execution, addressed to one shard.
///
/// The gas that executing it will burn is kept private: a shard learns it only
/// from [`Receipt::gas_burnt`], after the execution.
#[must_use]
#[derive(Clone, Debug)]
pub struct Receipt {
    pub id: ReceiptId,
    pub created_at: Option<Round>,
    pub dropped_at: Option<Round>,
    pub executed_at: Option<Round>,
    pub receiver: ShardId,
    pub size: u64,
    pub attached_gas: GGas,
    execution_gas: GGas,
}

impl View for Receipt {
    type V = ReceiptView;

    closed spec fn view(&self) -> ReceiptView {
        ReceiptView {
            id: self.id,
            created_at: self.created_at,
            dropped_at: self.dropped_at,
            executed_at: self.executed_at,
            receiver: self.receiver,
            size: self.size,
            attached_gas: self.attached_gas,
            execution_gas: self.execution_gas,
        }
    }
}

impl Receipt {
    /// A receipt that no shard has seen yet.
    pub fn new_future_receipt(
        id: ReceiptId,
        receiver: ShardId,
        size: u64,
        attached_gas: GGas,
        execution_gas: GGas,
    ) -> (receipt: Self)
        ensures
            receipt@ == (ReceiptView {
                id,
                created_at: None,
                dropped_at: None,
                executed_at: None,
                receiver,
                size,
                attached_gas,
                execution_gas,
            }),
    {
        Self {
            id,
            created_at: None,
            dropped_at: None,
            executed_at: None,
            receiver,
            size,
            attached_gas,
            execution_gas,
        }
    }

    /// The transaction that this receipt belongs to.
    pub fn transaction_id(&self) -> (t: TransactionId)
        ensures
            t == self@.id.transaction_id,
    {
        self.id.transaction_id()
    }

    /// The gas burnt by this receipt: nothing unless it has been executed.
    pub fn gas_burnt(&self) -> (gas: GGas)
        ensures
            self@.executed_at is None ==> gas == 0,
            self@.executed_at is Some ==> gas == self@.execution_gas,
            gas == self@.gas_burnt(),
    {
        if self.executed_at.is_some() {
            self.execution_gas
        } else {
            0
        }
    }

    pub fn id(&self) -> (id: ReceiptId)
        ensures
            id == self@.id,
    {
        self.id
    }

    pub fn receiver(&self) -> (receiver: ShardId)
        ensures
            receiver == self@.receiver,
    {
        self.receiver
    }

    pub fn size(&self) -> (size: u64)
        ensures
            size == self@.size,
    {
        self.size
    }

    pub fn attached_gas(&self) -> (gas: GGas)
        ensures
            gas == self@.attached_gas,
    {
        self.attached_gas
    }

    pub fn created_at(&self) -> (round: Option<Round>)
        ensures
            round == self@.created_at,
    {
        self.created_at
    }

    pub fn dropped_at(&self) -> (round: Option<Round>)
        ensures
            round == self@.dropped_at,
    {
        self.dropped_at
    }

    pub fn executed_at(&self) -> (round: Option<Round>)
        ensures
            round == self@.executed_at,
    {
        self.executed_at
    }

    /// Whether the receipt carries no round at all.
    pub fn is_unstamped(&self) -> (b: bool)
        ensures
            b == self@.is_unstamped(),
    {
        self.created_at.is_none() && self.dropped_at.is_none() && self.executed_at.is_none()
    }

    /// Whether the receipt has neither been executed nor dropped.
    pub fn is_unresolved(&self) -> (b: bool)
        ensures
            b == self@.is_unresolved(),
    {
        self.dropped_at.is_none() && self.executed_at.is_none()
    }

    /// Records the round in which the receipt was created on a shard.
    pub(crate) fn stamp_created(&mut self, round: Round)
        ensures
            final(self)@ == old(self)@.created(round),
    {
        self.created_at = Some(round);
    }

    /// Records the round in which the receipt was executed, and returns the
    /// gas that the execution burnt.
    pub(crate) fn stamp_executed(&mut self, round: Round) -> (gas: GGas)
        ensures
            final(self)@ == old(self)@.executed(round),
            gas == old(self)@.execution_gas,
    {
        self.executed_at = Some(round);
        self.execution_gas
    }

    /// Records the round in which the receipt was dropped.
    pub(crate) fn stamp_dropped(&mut self, round: Round)
        ensures
            final(self)@ == old(self)@.dropped(round),
    {
        self.dropped_at = Some(round);
    }
}

} // verus!
