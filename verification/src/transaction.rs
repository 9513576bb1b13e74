//! The tracker of one transaction: the executable counterpart of
//! [`TransactionState`].

use std::collections::{HashMap, HashSet};
use vstd::prelude::*;
use crate::ids::{GGas, ReceiptId, Round, ShardId, TransactionId};
use crate::receipt::{Receipt, ReceiptView};
use crate::state::{GraphError, TransactionState};

verus! {

/// The entire graph of receipts generated by one transaction submitted to the
/// chain, and the bucket that each receipt is in.
///
/// The collections are keyed by [`ReceiptId::key`]. What they hold, told by
/// receipt identifier, is the view of the transaction.
pub struct Transaction {
    id: TransactionId,
    /// Where the transaction is converted to the first receipt.
    sender_shard: ShardId,
    /// Where the transaction's first receipt is sent to.
    initial_receipt_receiver: ShardId,
    /// The receipt created when converting the transaction to a receipt.
    initial_receipt: ReceiptId,
    /// Gas burnt for converting the transaction to the first receipt.
    tx_conversion_cost: GGas,
    /// Gas attached to the first receipt.
    initial_receipt_gas: GGas,
    /// The directed edges of the graph.
    outgoing: HashMap<u128, Vec<ReceiptId>>,
    /// The same edges, backwards.
    dependencies: HashMap<u128, Vec<ReceiptId>>,
    /// Receipts that have not been created on chain yet.
    future_receipts: HashMap<u128, Receipt>,
    /// Receipts that have been created and are in a queue somewhere.
    pending_receipts: HashSet<u128>,
    /// Receipts that were explicitly dropped by a shard.
    dropped_receipts: HashMap<u128, Receipt>,
    /// Receipts that have finished execution.
    executed_receipts: HashMap<u128, Receipt>,
}

/// What one step of a transaction hands back to the shard.
pub struct ExecutionResult {
    /// The gas that the step burnt.
    pub gas_burnt: GGas,
    /// The receipts that the step created. Each one is pending.
    pub new_receipts: Vec<Receipt>,
}

/// What an [`ExecutionResult`] holds, as a plain mathematical value.
pub struct ExecutionResultView {
    pub gas_burnt: GGas,
    pub new_receipts: Seq<ReceiptView>,
}

impl View for ExecutionResult {
    type V = ExecutionResultView;

    open spec fn view(&self) -> ExecutionResultView {
        ExecutionResultView {
            gas_burnt: self.gas_burnt,
            new_receipts: self.new_receipts@.map_values(|receipt: Receipt| receipt@),
        }
    }
}

/// The receipts of a collection, told by identifier.
spec fn receipts_by_id(receipts: Map<u128, Receipt>) -> Map<ReceiptId, ReceiptView> {
    Map::new(
        |id: ReceiptId| receipts.contains_key(id.spec_key()),
        |id: ReceiptId| receipts[id.spec_key()]@,
    )
}

/// The edges of a collection, told by identifier.
spec fn edges_by_id(edges: Map<u128, Vec<ReceiptId>>) -> Map<ReceiptId, Seq<ReceiptId>> {
    Map::new(
        |id: ReceiptId| edges.contains_key(id.spec_key()),
        |id: ReceiptId| edges[id.spec_key()]@,
    )
}

/// The identifiers whose keys are in `keys`.
spec fn ids_by_key(keys: Set<u128>) -> Set<ReceiptId> {
    Set::new(|id: ReceiptId| keys.contains(id.spec_key()))
}

proof fn lemma_receipts_insert(receipts: Map<u128, Receipt>, id: ReceiptId, receipt: Receipt)
    ensures
        receipts_by_id(receipts.insert(id.spec_key(), receipt)) == receipts_by_id(receipts).insert(
            id,
            receipt@,
        ),
{
}

proof fn lemma_receipts_remove(receipts: Map<u128, Receipt>, id: ReceiptId)
    ensures
        receipts_by_id(receipts.remove(id.spec_key())) == receipts_by_id(receipts).remove(id),
{
}

proof fn lemma_edges_insert(edges: Map<u128, Vec<ReceiptId>>, id: ReceiptId, to: Vec<ReceiptId>)
    ensures
        edges_by_id(edges.insert(id.spec_key(), to)) == edges_by_id(edges).insert(id, to@),
{
}

proof fn lemma_ids_insert(keys: Set<u128>, id: ReceiptId)
    ensures
        ids_by_key(keys.insert(id.spec_key())) == ids_by_key(keys).insert(id),
{
}

proof fn lemma_ids_remove(keys: Set<u128>, id: ReceiptId)
    ensures
        ids_by_key(keys.remove(id.spec_key())) == ids_by_key(keys).remove(id),
{
}

impl View for Transaction {
    type V = TransactionState;

    closed spec fn view(&self) -> TransactionState {
        TransactionState {
            id: self.id,
            sender_shard: self.sender_shard,
            initial_receipt_receiver: self.initial_receipt_receiver,
            initial_receipt: self.initial_receipt,
            tx_conversion_cost: self.tx_conversion_cost,
            initial_receipt_gas: self.initial_receipt_gas,
            outgoing: edges_by_id(self.outgoing@),
            dependencies: edges_by_id(self.dependencies@),
            future_receipts: receipts_by_id(self.future_receipts@),
            pending_receipts: ids_by_key(self.pending_receipts@),
            dropped_receipts: receipts_by_id(self.dropped_receipts@),
            executed_receipts: receipts_by_id(self.executed_receipts@),
        }
    }
}

impl Transaction {
    /// A transaction whose graph is `initial_receipt` alone. The first
    /// receipt goes to the receiver of `initial_receipt`, with the gas
    /// attached to it. Refused if `initial_receipt` carries a round.
    pub fn new(
        id: TransactionId,
        sender_shard: ShardId,
        tx_conversion_cost: GGas,
        initial_receipt: Receipt,
    ) -> (result: Result<Transaction, GraphError>)
        ensures
            result is Ok <==> initial_receipt@.is_unstamped(),
            match result {
                Ok(transaction) => {
                    &&& transaction@ == TransactionState::initial(
                        id,
                        sender_shard,
                        tx_conversion_cost,
                        initial_receipt@,
                    )
                    &&& transaction@.wf()
                    &&& transaction@.orderly()
                    &&& transaction@.can_start()
                },
                Err(error) => error == GraphError::StampedReceipt,
            },
    {
        if !initial_receipt.is_unstamped() {
            return Err(GraphError::StampedReceipt);
        }
        let first = initial_receipt.id();
        let key = first.key();
        let initial_receipt_receiver = initial_receipt.receiver();
        let initial_receipt_gas = initial_receipt.attached_gas();
        let mut outgoing: HashMap<u128, Vec<ReceiptId>> = HashMap::new();
        let mut dependencies: HashMap<u128, Vec<ReceiptId>> = HashMap::new();
        let mut future_receipts: HashMap<u128, Receipt> = HashMap::new();
        let no_products: Vec<ReceiptId> = Vec::new();
        let no_producers: Vec<ReceiptId> = Vec::new();
        proof {
            TransactionState::lemma_initial(id, sender_shard, tx_conversion_cost, initial_receipt@);
        }
        outgoing.insert(key, no_products);
        dependencies.insert(key, no_producers);
        future_receipts.insert(key, initial_receipt);
        let transaction = Transaction {
            id,
            sender_shard,
            initial_receipt_receiver,
            initial_receipt: first,
            tx_conversion_cost,
            initial_receipt_gas,
            outgoing,
            dependencies,
            future_receipts,
            pending_receipts: HashSet::new(),
            dropped_receipts: HashMap::new(),
            executed_receipts: HashMap::new(),
        };
        proof {
            let model = TransactionState::initial(
                id,
                sender_shard,
                tx_conversion_cost,
                initial_receipt@,
            );
            assert(transaction@.outgoing =~= model.outgoing);
            assert(transaction@.dependencies =~= model.dependencies);
            assert(transaction@.future_receipts =~= model.future_receipts);
            assert(transaction@.executed_receipts =~= model.executed_receipts);
        }
        Ok(transaction)
    }

    /// Adds `receipt` to the graph, as a future receipt and as the last
    /// product of `producer`. Refused, with nothing changed, if `receipt`
    /// carries a round, if `producer` is not in the graph, or if a receipt
    /// with the identifier of `receipt` is in it already.
    pub fn add_outgoing_receipt(&mut self, producer: ReceiptId, receipt: Receipt) -> (result:
        Result<(), GraphError>)
        requires
            old(self)@.wf(),
        ensures
            final(self)@.wf(),
            result is Ok <==> old(self)@.can_add(producer, receipt@),
            match result {
                Ok(_) => final(self)@ == old(self)@.after_add(producer, receipt@),
                Err(error) => {
                    &&& final(self)@ == old(self)@
                    &&& Some(error) == old(self)@.add_refusal(producer, receipt@)
                },
            },
            old(self)@.orderly() ==> final(self)@.orderly(),
    {
        let id = receipt.id();
        let key = id.key();
        let producer_key = producer.key();
        if !receipt.is_unstamped() {
            return Err(GraphError::StampedReceipt);
        }
        if !self.outgoing.contains_key(&producer_key) {
            return Err(GraphError::UnknownProducer);
        }
        if self.outgoing.contains_key(&key) {
            return Err(GraphError::DuplicateReceipt);
        }
        let mut products = self.outgoing.remove(&producer_key).unwrap();
        products.push(id);
        let no_products: Vec<ReceiptId> = Vec::new();
        let producers: Vec<ReceiptId> = vec![producer];
        proof {
            assert(producers@ =~= seq![producer]);
            lemma_edges_insert(self.outgoing@.insert(producer_key, products), id, no_products);
            lemma_edges_insert(self.dependencies@, id, producers);
            lemma_receipts_insert(self.future_receipts@, id, receipt);
            old(self)@.lemma_add(producer, receipt@);
        }
        self.outgoing.insert(producer_key, products);
        self.outgoing.insert(key, no_products);
        self.dependencies.insert(key, producers);
        self.future_receipts.insert(key, receipt);
        proof {
            assert(final(self)@.outgoing =~= old(self)@.after_add(producer, receipt@).outgoing);
        }
        Ok(())
    }

    /// Creates the future receipt `receipt_id` on its shard: the receipt
    /// leaves the future, becomes pending and is handed out, with `round` as
    /// the round of its creation. A receipt that is not in the future is not
    /// found, and nothing changes.
    ///
    /// This is the primitive under [`Self::start`] and
    /// [`Self::execute_receipt`]. Called on its own it creates a receipt
    /// ahead of its producer, which leaves the state not orderly: the
    /// producer can then no longer be executed.
    pub fn activate_receipt(&mut self, receipt_id: ReceiptId, round: Round) -> (activated: Option<
        Receipt,
    >)
        requires
            old(self)@.wf(),
        ensures
            final(self)@.wf(),
            activated is Some <==> old(self)@.is_future(receipt_id),
            match activated {
                Some(receipt) => {
                    &&& receipt@ == old(self)@.activated(receipt_id, round)
                    &&& final(self)@ == old(self)@.after_activate(receipt_id)
                },
                None => final(self)@ == old(self)@,
            },
    {
        let key = receipt_id.key();
        match self.future_receipts.remove(&key) {
            None => {
                assert(self.future_receipts@ =~= old(self).future_receipts@);
                None
            },
            Some(mut receipt) => {
                receipt.stamp_created(round);
                let id = receipt.id();
                self.pending_receipts.insert(id.key());
                proof {
                    lemma_receipts_remove(old(self).future_receipts@, receipt_id);
                    lemma_ids_insert(old(self).pending_receipts@, receipt_id);
                    old(self)@.lemma_activate(receipt_id);
                }
                Some(receipt)
            },
        }
    }

    /// Starts the transaction: its initial receipt is created in `round`.
    /// Converting the transaction is what burns gas here.
    ///
    /// A transaction is started once; it cannot be started again.
    pub fn start(&mut self, round: Round) -> (result: ExecutionResult)
        requires
            old(self)@.wf(),
            old(self)@.can_start(),
        ensures
            final(self)@.wf(),
            final(self)@ == old(self)@.after_start(),
            result.gas_burnt == old(self)@.tx_conversion_cost,
            result.new_receipts@.len() == 1,
            result.new_receipts@[0]@ == old(self)@.activated(old(self)@.initial_receipt, round),
            result@.new_receipts == seq![
                old(self)@.activated(old(self)@.initial_receipt, round),
            ],
            !final(self)@.can_start(),
            old(self)@.orderly() ==> final(self)@.orderly(),
    {
        let receipt = self.activate_receipt(self.initial_receipt, round).expect(
            "should not start the same transaction twice",
        );
        self.pending_receipts.insert(self.initial_receipt.key());
        proof {
            assert(final(self)@.pending_receipts =~= old(self)@.after_start().pending_receipts);
        }
        ExecutionResult { gas_burnt: self.tx_conversion_cost, new_receipts: vec![receipt] }
    }

    /// Records that `receipt`, which was pending, has been executed in
    /// `round`. The receipts that it produces are created, in the order of
    /// the graph, and handed out; the gas burnt is the execution gas of
    /// `receipt`.
    pub fn execute_receipt(&mut self, mut receipt: Receipt, round: Round) -> (result:
        ExecutionResult)
        requires
            old(self)@.wf(),
            old(self)@.can_execute(receipt@),
        ensures
            final(self)@.wf(),
            final(self)@ == old(self)@.after_execute(receipt@, round),
            result.gas_burnt == receipt@.execution_gas,
            result.new_receipts@.len() == old(self)@.outgoing[receipt@.id].len(),
            forall|i: int|
                0 <= i < result.new_receipts@.len() ==> (#[trigger] result.new_receipts@[i])@
                    == old(self)@.activated(old(self)@.outgoing[receipt@.id][i], round),
            result@.new_receipts == old(self)@.spawned(receipt@.id, round),
            old(self)@.orderly() ==> final(self)@.orderly(),
    {
        let id = receipt.id();
        let key = id.key();
        let ghost given = receipt@;
        let ghost before = self@;
        let ghost produced = before.outgoing[id];
        let outgoing_ids = self.outgoing.get(&key).unwrap().clone();
        let mut new_receipts: Vec<Receipt> = Vec::new();
        let mut i: usize = 0;
        proof {
            let none = after_activate_all(before, produced.take(0));
            assert(none.future_receipts =~= before.future_receipts);
            assert(none.pending_receipts =~= before.pending_receipts);
        }
        while i < outgoing_ids.len()
            invariant
                i <= outgoing_ids.len(),
                before.wf(),
                before.ready(id),
                outgoing_ids@ == produced,
                produced == before.outgoing[id],
                self@.wf(),
                self@ == after_activate_all(before, produced.take(i as int)),
                new_receipts@.len() == i,
                forall|j: int|
                    0 <= j < i ==> (#[trigger] new_receipts@[j])@ == before.activated(
                        produced[j],
                        round,
                    ),
            decreases outgoing_ids.len() - i,
        {
            let next = outgoing_ids[i];
            proof {
                assert(before.has_edge(id, produced[i as int]));
                lemma_activate_one_more(before, produced, i as int);
            }
            let activated = self.activate_receipt(next, round).expect(
                "must not create the same receipt multiple times",
            );
            new_receipts.push(activated);
            i += 1;
        }
        let gas_burnt = receipt.stamp_executed(round);
        proof {
            assert(produced.take(i as int) == produced);
            lemma_receipts_insert(self.executed_receipts@, id, receipt);
        }
        self.pending_receipts.remove(&key);
        self.executed_receipts.insert(key, receipt);
        let result = ExecutionResult { gas_burnt, new_receipts };
        proof {
            old(self)@.lemma_execute(given, round);
            assert(final(self)@.pending_receipts =~= old(self)@.after_execute(
                given,
                round,
            ).pending_receipts);
        }
        result
    }

    /// Records that `receipt`, which was pending, has been dropped in
    /// `round`. No gas is burnt, and nothing that the receipt would have
    /// produced is created.
    pub fn drop_receipt(&mut self, mut receipt: Receipt, round: Round)
        requires
            old(self)@.wf(),
            old(self)@.can_drop(receipt@),
        ensures
            final(self)@.wf(),
            final(self)@ == old(self)@.after_drop(receipt@, round),
            old(self)@.orderly() ==> final(self)@.orderly(),
    {
        let key = receipt.id().key();
        let ghost given = receipt@;
        self.pending_receipts.remove(&key);
        receipt.stamp_dropped(round);
        self.dropped_receipts.insert(key, receipt);
        proof {
            lemma_ids_remove(old(self).pending_receipts@, given.id);
            lemma_receipts_insert(old(self).dropped_receipts@, given.id, receipt);
        }
    }

    /// Where the first receipt of the transaction is sent to.
    pub fn initial_receipt_receiver(&self) -> (receiver: ShardId)
        ensures
            receiver == self@.initial_receipt_receiver,
    {
        self.initial_receipt_receiver
    }

    /// The gas attached to the first receipt of the transaction.
    pub fn initial_receipt_gas(&self) -> (gas: GGas)
        ensures
            gas == self@.initial_receipt_gas,
    {
        self.initial_receipt_gas
    }

    pub fn id(&self) -> (id: TransactionId)
        ensures
            id == self@.id,
    {
        self.id
    }

    /// Where the transaction is converted to its first receipt.
    pub fn sender_shard(&self) -> (shard: ShardId)
        ensures
            shard == self@.sender_shard,
    {
        self.sender_shard
    }

    /// The receipt that converting the transaction creates.
    pub fn initial_receipt(&self) -> (id: ReceiptId)
        ensures
            id == self@.initial_receipt,
    {
        self.initial_receipt
    }

    /// The gas that converting the transaction burns.
    pub fn tx_conversion_cost(&self) -> (gas: GGas)
        ensures
            gas == self@.tx_conversion_cost,
    {
        self.tx_conversion_cost
    }

    /// Whether `id` is a receipt that has not been created yet.
    pub fn is_future(&self, id: ReceiptId) -> (b: bool)
        ensures
            b == self@.is_future(id),
    {
        self.future_receipts.contains_key(&id.key())
    }

    /// Whether `id` is a receipt that has been created and neither executed
    /// nor dropped.
    pub fn is_pending(&self, id: ReceiptId) -> (b: bool)
        ensures
            b == self@.is_pending(id),
    {
        self.pending_receipts.contains(&id.key())
    }

    /// The receipt `id` as it was dropped, if it was.
    pub fn dropped_receipt(&self, id: ReceiptId) -> (found: Option<&Receipt>)
        ensures
            found is Some <==> self@.is_dropped(id),
            found matches Some(receipt) ==> receipt@ == self@.dropped_receipts[id],
    {
        self.dropped_receipts.get(&id.key())
    }

    /// The receipt `id` as it was executed, if it was.
    pub fn executed_receipt(&self, id: ReceiptId) -> (found: Option<&Receipt>)
        ensures
            found is Some <==> self@.is_executed(id),
            found matches Some(receipt) ==> receipt@ == self@.executed_receipts[id],
    {
        self.executed_receipts.get(&id.key())
    }

    /// What executing `id` produces, if `id` is in the graph.
    pub fn outgoing(&self, id: ReceiptId) -> (found: Option<&Vec<ReceiptId>>)
        ensures
            found is Some <==> self@.outgoing.contains_key(id),
            found matches Some(products) ==> products@ == self@.outgoing[id],
    {
        self.outgoing.get(&id.key())
    }

    /// What produces `id`, if `id` is in the graph.
    pub fn dependencies(&self, id: ReceiptId) -> (found: Option<&Vec<ReceiptId>>)
        ensures
            found is Some <==> self@.dependencies.contains_key(id),
            found matches Some(producers) ==> producers@ == self@.dependencies[id],
    {
        self.dependencies.get(&id.key())
    }

    /// Whether the transaction can be started: it has not been started yet.
    pub fn can_start(&self) -> (b: bool)
        ensures
            b == self@.can_start(),
    {
        self.is_future(self.initial_receipt)
    }

    /// Whether `receipt` can be dropped.
    pub fn can_drop(&self, receipt: &Receipt) -> (b: bool)
        ensures
            b == self@.can_drop(receipt@),
    {
        self.is_pending(receipt.id()) && receipt.is_unresolved()
    }

    /// Whether `receipt` can be executed.
    pub fn can_execute(&self, receipt: &Receipt) -> (b: bool)
        ensures
            b == self@.can_execute(receipt@),
    {
        let id = receipt.id();
        if !(self.is_pending(id) && receipt.is_unresolved()) {
            return false;
        }
        match self.outgoing(id) {
            None => false,
            Some(products) => {
                let mut i: usize = 0;
                while i < products.len()
                    invariant
                        i <= products.len(),
                        id == receipt@.id,
                        self@.is_pending(id),
                        receipt@.is_unresolved(),
                        self@.outgoing.contains_key(id),
                        products@ == self@.outgoing[id],
                        forall|j: int| 0 <= j < i ==> self@.is_future(#[trigger] products@[j]),
                    decreases products.len() - i,
                {
                    if !self.is_future(products[i]) {
                        assert(self@.has_edge(id, products@[i as int]));
                        return false;
                    }
                    i += 1;
                }
                true
            },
        }
    }
}

/// The state after the future receipts `ids` have become pending.
spec fn after_activate_all(state: TransactionState, ids: Seq<ReceiptId>) -> TransactionState {
    TransactionState {
        future_receipts: state.future_receipts.remove_keys(ids.to_set()),
        pending_receipts: state.pending_receipts + ids.to_set(),
        ..state
    }
}

/// Creating the first `n` receipts of `ids` and then the next one is creating
/// the first `n + 1`; and while that next one has not been created, it is in
/// the future as it was.
proof fn lemma_activate_one_more(state: TransactionState, ids: Seq<ReceiptId>, n: int)
    requires
        0 <= n < ids.len(),
        state.is_future(ids[n]),
        !ids.take(n).contains(ids[n]),
    ensures
        after_activate_all(state, ids.take(n)).is_future(ids[n]),
        after_activate_all(state, ids.take(n)).future_receipts[ids[n]]
            == state.future_receipts[ids[n]],
        after_activate_all(state, ids.take(n)).after_activate(ids[n]) == after_activate_all(
            state,
            ids.take(n + 1),
        ),
{
    let earlier = ids.take(n);
    let later = ids.take(n + 1);
    assert forall|id: ReceiptId| later.to_set().contains(id) <==> earlier.to_set().contains(id)
        || id == ids[n] by {
        assert(later[n] == ids[n]);
    }
    let left = after_activate_all(state, earlier).after_activate(ids[n]);
    let right = after_activate_all(state, later);
    assert(left.future_receipts =~= right.future_receipts);
    assert(left.pending_receipts =~= right.pending_receipts);
}

} // verus!
