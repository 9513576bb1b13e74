//! The mathematical model of a transaction: its graph of receipts, the four
//! lifecycle buckets, and the steps that move receipts between them.

use vstd::prelude::*;
use crate::ids::{GGas, ReceiptId, Round, ShardId, TransactionId};
use crate::receipt::ReceiptView;

verus! {

/// Everything that is recorded about one transaction.
///
/// `outgoing` holds the edges of the graph: the receipts that each receipt
/// produces when it is executed, in order. `dependencies` holds the same edges
/// backwards. Every receipt of the graph is in one of the four buckets:
/// future (known, not yet created on a shard), pending (created, waiting in
/// some queue, of which only the identifier is kept here), dropped, executed.
pub struct TransactionState {
    pub id: TransactionId,
    pub sender_shard: ShardId,
    pub initial_receipt_receiver: ShardId,
    pub initial_receipt: ReceiptId,
    pub tx_conversion_cost: GGas,
    pub initial_receipt_gas: GGas,
    pub outgoing: Map<ReceiptId, Seq<ReceiptId>>,
    pub dependencies: Map<ReceiptId, Seq<ReceiptId>>,
    pub future_receipts: Map<ReceiptId, ReceiptView>,
    pub pending_receipts: Set<ReceiptId>,
    pub dropped_receipts: Map<ReceiptId, ReceiptView>,
    pub executed_receipts: Map<ReceiptId, ReceiptView>,
}

/// Why a receipt cannot join the graph of a transaction.
#[derive(Clone, Copy, Debug, PartialEq, Eq, Structural)]
pub enum GraphError {
    /// The receipt carries the round of its creation, execution or drop: it
    /// is not a future receipt.
    StampedReceipt,
    /// The receipt that is to produce it is not in the graph.
    UnknownProducer,
    /// A receipt with this identifier is in the graph already.
    DuplicateReceipt,
}

/// In the graph `outgoing`, executing `from` produces `to`.
pub open spec fn produces(
    outgoing: Map<ReceiptId, Seq<ReceiptId>>,
    from: ReceiptId,
    to: ReceiptId,
) -> bool {
    outgoing.contains_key(from) && outgoing[from].contains(to)
}

/// In the graph `outgoing`, `path` leads along edges from its first receipt
/// to its last.
pub open spec fn is_path(outgoing: Map<ReceiptId, Seq<ReceiptId>>, path: Seq<ReceiptId>) -> bool {
    &&& path.len() > 0
    &&& forall|i: int|
        0 <= i < path.len() - 1 ==> produces(outgoing, #[trigger] path[i], path[i + 1])
}

/// In the graph `outgoing`, `to` is `from` or can be reached from it along
/// edges.
pub open spec fn reaches(
    outgoing: Map<ReceiptId, Seq<ReceiptId>>,
    from: ReceiptId,
    to: ReceiptId,
) -> bool {
    exists|path: Seq<ReceiptId>|
        #[trigger] is_path(outgoing, path) && path[0] == from && path.last() == to
}

/// In the graph `outgoing`, `path` leads from a receipt along one edge or
/// more back to the same receipt.
pub open spec fn is_cycle(outgoing: Map<ReceiptId, Seq<ReceiptId>>, path: Seq<ReceiptId>) -> bool {
    &&& is_path(outgoing, path)
    &&& path.len() >= 2
    &&& path[0] == path.last()
}

impl TransactionState {
    // ----- The buckets -----

    /// `id` is known and has not been created on a shard yet.
    #[verifier::inline]
    pub open spec fn is_future(self, id: ReceiptId) -> bool {
        self.future_receipts.contains_key(id)
    }

    /// `id` has been created and is neither executed nor dropped.
    #[verifier::inline]
    pub open spec fn is_pending(self, id: ReceiptId) -> bool {
        self.pending_receipts.contains(id)
    }

    /// `id` has been dropped.
    #[verifier::inline]
    pub open spec fn is_dropped(self, id: ReceiptId) -> bool {
        self.dropped_receipts.contains_key(id)
    }

    /// `id` has been executed.
    #[verifier::inline]
    pub open spec fn is_executed(self, id: ReceiptId) -> bool {
        self.executed_receipts.contains_key(id)
    }

    /// The receipts that are in some bucket.
    pub open spec fn receipts(self) -> Set<ReceiptId> {
        self.future_receipts.dom() + self.pending_receipts + self.dropped_receipts.dom()
            + self.executed_receipts.dom()
    }

    /// In how many of the four buckets `id` is.
    pub open spec fn bucket_count(self, id: ReceiptId) -> nat {
        let future: nat = if self.is_future(id) { 1 } else { 0 };
        let pending: nat = if self.is_pending(id) { 1 } else { 0 };
        let dropped: nat = if self.is_dropped(id) { 1 } else { 0 };
        let executed: nat = if self.is_executed(id) { 1 } else { 0 };
        future + pending + dropped + executed
    }

    /// The sizes of the four buckets, added up.
    pub open spec fn receipt_count(self) -> nat {
        self.future_receipts.dom().len() + self.pending_receipts.len()
            + self.dropped_receipts.dom().len() + self.executed_receipts.dom().len()
    }

    // ----- The graph -----

    /// Executing `from` produces `to`.
    #[verifier::inline]
    pub open spec fn has_edge(self, from: ReceiptId, to: ReceiptId) -> bool {
        produces(self.outgoing, from, to)
    }

    /// `id` is the initial receipt or can be reached from it along edges.
    #[verifier::inline]
    pub open spec fn is_reachable(self, id: ReceiptId) -> bool {
        reaches(self.outgoing, self.initial_receipt, id)
    }

    // ----- What holds of every state -----

    /// Each bucket holds finitely many receipts.
    pub open spec fn buckets_finite(self) -> bool {
        &&& self.future_receipts.dom().finite()
        &&& self.pending_receipts.finite()
        &&& self.dropped_receipts.dom().finite()
        &&& self.executed_receipts.dom().finite()
    }

    /// No receipt is in two buckets.
    pub open spec fn buckets_disjoint(self) -> bool {
        forall|id: ReceiptId|
            #![trigger self.is_future(id)]
            #![trigger self.is_pending(id)]
            #![trigger self.is_dropped(id)]
            #![trigger self.is_executed(id)]
            self.bucket_count(id) <= 1
    }

    /// A receipt that is kept in a bucket is kept under its own identifier.
    pub open spec fn filed_by_id(self) -> bool {
        &&& forall|id: ReceiptId| #[trigger]
            self.is_future(id) ==> self.future_receipts[id].id == id
        &&& forall|id: ReceiptId| #[trigger]
            self.is_dropped(id) ==> self.dropped_receipts[id].id == id
        &&& forall|id: ReceiptId| #[trigger]
            self.is_executed(id) ==> self.executed_receipts[id].id == id
    }

    /// The rounds that a receipt carries fit the bucket it is in: none at all
    /// on a future receipt, and of the two rounds that end a receipt's life
    /// only the one of its bucket.
    pub open spec fn stamps_fit_buckets(self) -> bool {
        &&& forall|id: ReceiptId| #[trigger]
            self.is_future(id) ==> self.future_receipts[id].is_unstamped()
        &&& forall|id: ReceiptId| #[trigger]
            self.is_dropped(id) ==> {
                &&& self.dropped_receipts[id].dropped_at is Some
                &&& self.dropped_receipts[id].executed_at is None
            }
        &&& forall|id: ReceiptId| #[trigger]
            self.is_executed(id) ==> {
                &&& self.executed_receipts[id].executed_at is Some
                &&& self.executed_receipts[id].dropped_at is None
            }
    }

    /// The graph has an entry for exactly the receipts in the buckets, the
    /// initial receipt is one of them, and every edge ends at one of them.
    pub open spec fn graph_closed(self) -> bool {
        &&& self.outgoing.dom() =~= self.receipts()
        &&& self.outgoing.contains_key(self.initial_receipt)
        &&& forall|from: ReceiptId, to: ReceiptId| #[trigger]
            self.has_edge(from, to) ==> self.outgoing.contains_key(to)
    }

    /// Every receipt is produced at most once: no receipt occurs twice among
    /// the products of one receipt, none is produced by two receipts, and the
    /// initial receipt is produced by none.
    pub open spec fn produced_once(self) -> bool {
        &&& forall|from: ReceiptId| #[trigger]
            self.outgoing.contains_key(from) ==> self.outgoing[from].no_duplicates()
        &&& forall|a: ReceiptId, b: ReceiptId, to: ReceiptId|
            #![trigger self.has_edge(a, to), self.has_edge(b, to)]
            self.has_edge(a, to) && self.has_edge(b, to) ==> a == b
        &&& forall|from: ReceiptId| !#[trigger] self.has_edge(from, self.initial_receipt)
    }

    /// Every receipt of the graph can be reached from the initial receipt.
    pub open spec fn connected(self) -> bool {
        forall|id: ReceiptId| #[trigger]
            self.outgoing.contains_key(id) ==> self.is_reachable(id)
    }

    /// `dependencies` holds the edges of `outgoing`, each one backwards and
    /// once.
    pub open spec fn dependencies_mirror_outgoing(self) -> bool {
        &&& self.dependencies.dom() =~= self.outgoing.dom()
        &&& forall|to: ReceiptId| #[trigger]
            self.dependencies.contains_key(to) ==> self.dependencies[to].no_duplicates()
        &&& forall|from: ReceiptId, to: ReceiptId|
            self.dependencies.contains_key(to) ==> (self.dependencies[to].contains(from)
                <==> #[trigger] self.has_edge(from, to))
    }

    /// The invariant of the model. Every state that the library builds has it,
    /// and every step keeps it.
    pub open spec fn wf(self) -> bool {
        &&& self.buckets_finite()
        &&& self.buckets_disjoint()
        &&& self.filed_by_id()
        &&& self.stamps_fit_buckets()
        &&& self.graph_closed()
        &&& self.produced_once()
        &&& self.connected()
        &&& self.dependencies_mirror_outgoing()
    }

    /// Receipts were created only by starting the transaction and by
    /// executing their producer: what a receipt that is not executed would
    /// produce is still in the future. Every step but a bare
    /// [`Self::after_activate`] keeps this.
    pub open spec fn orderly(self) -> bool {
        forall|from: ReceiptId, to: ReceiptId| #[trigger]
            self.has_edge(from, to) && !self.is_executed(from) ==> self.is_future(to)
    }

    // ----- Creating a receipt on a shard -----

    /// The future receipt `id` as it is handed out when it is created in
    /// `round`.
    pub open spec fn activated(self, id: ReceiptId, round: Round) -> ReceiptView {
        self.future_receipts[id].created(round)
    }

    /// The state after the future receipt `id` has become pending.
    pub open spec fn after_activate(self, id: ReceiptId) -> TransactionState {
        TransactionState {
            future_receipts: self.future_receipts.remove(id),
            pending_receipts: self.pending_receipts.insert(id),
            ..self
        }
    }

    // ----- Starting the transaction -----

    /// The transaction has not been started: its initial receipt is still in
    /// the future.
    pub open spec fn can_start(self) -> bool {
        self.is_future(self.initial_receipt)
    }

    /// The state after the start: the initial receipt has become pending.
    pub open spec fn after_start(self) -> TransactionState {
        self.after_activate(self.initial_receipt)
    }

    // ----- Executing a receipt -----

    /// All that executing `id` produces is still in the future.
    pub open spec fn ready(self, id: ReceiptId) -> bool {
        &&& self.outgoing.contains_key(id)
        &&& forall|to: ReceiptId| #[trigger] self.has_edge(id, to) ==> self.is_future(to)
    }

    /// `receipt` is pending here and carries no round that would end its
    /// life, and what it produces can be created.
    pub open spec fn can_execute(self, receipt: ReceiptView) -> bool {
        &&& self.is_pending(receipt.id)
        &&& receipt.is_unresolved()
        &&& self.ready(receipt.id)
    }

    /// The receipts that executing `id` in `round` hands out: what `id`
    /// produces, in the order of the graph, each created in `round`.
    pub open spec fn spawned(self, id: ReceiptId, round: Round) -> Seq<ReceiptView> {
        Seq::new(self.outgoing[id].len(), |i: int| self.activated(self.outgoing[id][i], round))
    }

    /// The state after `receipt` has been executed in `round`: it is kept as
    /// executed, and what it produces has become pending.
    pub open spec fn after_execute(self, receipt: ReceiptView, round: Round) -> TransactionState {
        let produced = self.outgoing[receipt.id].to_set();
        TransactionState {
            future_receipts: self.future_receipts.remove_keys(produced),
            pending_receipts: (self.pending_receipts + produced).remove(receipt.id),
            executed_receipts: self.executed_receipts.insert(receipt.id, receipt.executed(round)),
            ..self
        }
    }

    // ----- Dropping a receipt -----

    /// `receipt` is pending here and carries no round that would end its
    /// life.
    pub open spec fn can_drop(self, receipt: ReceiptView) -> bool {
        &&& self.is_pending(receipt.id)
        &&& receipt.is_unresolved()
    }

    /// The state after `receipt` has been dropped in `round`: it is kept as
    /// dropped, and nothing else has moved.
    pub open spec fn after_drop(self, receipt: ReceiptView, round: Round) -> TransactionState {
        TransactionState {
            pending_receipts: self.pending_receipts.remove(receipt.id),
            dropped_receipts: self.dropped_receipts.insert(receipt.id, receipt.dropped(round)),
            ..self
        }
    }

    // ----- Building the graph -----

    /// The state of a new transaction, whose graph is its initial receipt
    /// alone.
    pub open spec fn initial(
        id: TransactionId,
        sender_shard: ShardId,
        tx_conversion_cost: GGas,
        initial_receipt: ReceiptView,
    ) -> TransactionState {
        TransactionState {
            id,
            sender_shard,
            initial_receipt_receiver: initial_receipt.receiver,
            initial_receipt: initial_receipt.id,
            tx_conversion_cost,
            initial_receipt_gas: initial_receipt.attached_gas,
            outgoing: Map::empty().insert(initial_receipt.id, Seq::empty()),
            dependencies: Map::empty().insert(initial_receipt.id, Seq::empty()),
            future_receipts: Map::empty().insert(initial_receipt.id, initial_receipt),
            pending_receipts: Set::empty(),
            dropped_receipts: Map::empty(),
            executed_receipts: Map::empty(),
        }
    }

    /// Why `receipt` cannot join the graph as a product of `producer`, if it
    /// cannot. Of several reasons the first in the order of [`GraphError`] is
    /// given.
    pub open spec fn add_refusal(self, producer: ReceiptId, receipt: ReceiptView) -> Option<
        GraphError,
    > {
        if !receipt.is_unstamped() {
            Some(GraphError::StampedReceipt)
        } else if !self.outgoing.contains_key(producer) {
            Some(GraphError::UnknownProducer)
        } else if self.outgoing.contains_key(receipt.id) {
            Some(GraphError::DuplicateReceipt)
        } else {
            None
        }
    }

    /// `receipt` can join the graph as a product of `producer`: it carries no
    /// round, `producer` is in the graph and `receipt` is not.
    pub open spec fn can_add(self, producer: ReceiptId, receipt: ReceiptView) -> bool {
        self.add_refusal(producer, receipt) is None
    }

    /// The state after `receipt` has joined the graph as the last product of
    /// `producer`.
    pub open spec fn after_add(self, producer: ReceiptId, receipt: ReceiptView) -> TransactionState {
        TransactionState {
            outgoing: self.outgoing.insert(producer, self.outgoing[producer].push(receipt.id)).insert(
                receipt.id,
                Seq::empty(),
            ),
            dependencies: self.dependencies.insert(receipt.id, seq![producer]),
            future_receipts: self.future_receipts.insert(receipt.id, receipt),
            ..self
        }
    }
}

} // verus!
