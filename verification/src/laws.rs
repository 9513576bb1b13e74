//! Laws of the model: what every step keeps, and what follows from the
//! invariant.

use vstd::prelude::*;
use crate::ids::{GGas, ReceiptId, Round, ShardId, TransactionId};
use crate::receipt::ReceiptView;
use crate::state::{is_cycle, is_path, TransactionState};

verus! {

/// One step in the life of a transaction, as a shard reports it.
pub enum Step {
    /// The transaction is converted into its initial receipt.
    Start,
    /// The receipt has been executed in the round.
    Execute(ReceiptView, Round),
    /// The receipt has been dropped in the round.
    Drop(ReceiptView, Round),
}

impl TransactionState {
    /// `later` can come after `self`: the graph and the transaction's fixed
    /// data are the same, no receipt has gone back to an earlier bucket, and
    /// what was dropped or executed is kept unchanged.
    pub open spec fn advances_to(self, later: TransactionState) -> bool {
        &&& later.id == self.id
        &&& later.sender_shard == self.sender_shard
        &&& later.initial_receipt_receiver == self.initial_receipt_receiver
        &&& later.initial_receipt == self.initial_receipt
        &&& later.tx_conversion_cost == self.tx_conversion_cost
        &&& later.initial_receipt_gas == self.initial_receipt_gas
        &&& later.outgoing == self.outgoing
        &&& later.dependencies == self.dependencies
        &&& later.receipts() == self.receipts()
        &&& later.receipt_count() == self.receipt_count()
        &&& forall|id: ReceiptId| #[trigger]
            later.is_future(id) ==> self.is_future(id) && later.future_receipts[id]
                == self.future_receipts[id]
        &&& forall|id: ReceiptId| #[trigger]
            later.is_pending(id) ==> self.is_pending(id) || self.is_future(id)
        &&& forall|id: ReceiptId| #[trigger]
            self.is_dropped(id) ==> later.is_dropped(id) && later.dropped_receipts[id]
                == self.dropped_receipts[id]
        &&& forall|id: ReceiptId| #[trigger]
            self.is_executed(id) ==> later.is_executed(id) && later.executed_receipts[id]
                == self.executed_receipts[id]
    }

    /// Creating a future receipt keeps the invariant, the set of receipts and
    /// their number, and moves nothing backwards.
    pub proof fn lemma_activate(self, id: ReceiptId)
        requires
            self.wf(),
            self.is_future(id),
        ensures
            self.after_activate(id).wf(),
            self.advances_to(self.after_activate(id)),
            !self.after_activate(id).is_future(id),
            self.after_activate(id).is_pending(id),
    {
        let next = self.after_activate(id);
        assert(next.receipts() =~= self.receipts());
    }

    /// Starting the transaction keeps the invariant, the set of receipts and
    /// their number; and a transaction that was started cannot be started
    /// again.
    pub proof fn lemma_start(self)
        requires
            self.wf(),
            self.can_start(),
        ensures
            self.after_start().wf(),
            self.advances_to(self.after_start()),
            !self.after_start().can_start(),
            self.after_start().is_pending(self.initial_receipt),
            self.orderly() ==> self.after_start().orderly(),
    {
        self.lemma_activate(self.initial_receipt);
    }

    /// Executing a pending receipt keeps the invariant, the set of receipts
    /// and their number: the receipt becomes executed, and exactly what it
    /// produces leaves the future and becomes pending.
    pub proof fn lemma_execute(self, receipt: ReceiptView, round: Round)
        requires
            self.wf(),
            self.can_execute(receipt),
        ensures
            self.after_execute(receipt, round).wf(),
            self.advances_to(self.after_execute(receipt, round)),
            self.after_execute(receipt, round).is_executed(receipt.id),
            self.after_execute(receipt, round).executed_receipts[receipt.id] == receipt.executed(
                round,
            ),
            forall|to: ReceiptId| #[trigger]
                self.has_edge(receipt.id, to) ==> self.after_execute(receipt, round).is_pending(to),
            forall|id: ReceiptId|
                !self.has_edge(receipt.id, id) ==> (#[trigger] self.after_execute(
                    receipt,
                    round,
                ).is_future(id) <==> self.is_future(id)),
            self.orderly() ==> self.after_execute(receipt, round).orderly(),
    {
        let next = self.after_execute(receipt, round);
        let produced = self.outgoing[receipt.id].to_set();
        let future = self.future_receipts.dom();
        assert forall|to: ReceiptId| produced.contains(to) implies future.contains(to)
            && !self.pending_receipts.contains(to) by {
            assert(self.has_edge(receipt.id, to));
        }
        assert(next.future_receipts.dom() =~= future.difference(produced));
        assert(future.intersect(produced) =~= produced);
        assert(self.pending_receipts.intersect(produced) =~= Set::empty());
        vstd::set_lib::lemma_set_difference_len(future, produced);
        vstd::set_lib::lemma_set_intersect_union_lens(self.pending_receipts, produced);
        if self.orderly() {
            assert forall|from: ReceiptId, to: ReceiptId| #[trigger]
                next.has_edge(from, to) && !next.is_executed(from) implies next.is_future(to) by {
                if produced.contains(to) {
                    assert(self.has_edge(receipt.id, to));
                }
            }
        }
    }

    /// Dropping a pending receipt keeps the invariant, the set of receipts
    /// and their number: the receipt becomes dropped, and nothing that it
    /// would have produced is created.
    pub proof fn lemma_drop(self, receipt: ReceiptView, round: Round)
        requires
            self.wf(),
            self.can_drop(receipt),
        ensures
            self.after_drop(receipt, round).wf(),
            self.advances_to(self.after_drop(receipt, round)),
            self.after_drop(receipt, round).is_dropped(receipt.id),
            self.after_drop(receipt, round).dropped_receipts[receipt.id] == receipt.dropped(round),
            self.after_drop(receipt, round).dropped_receipts[receipt.id].executed_at is None,
            self.after_drop(receipt, round).future_receipts == self.future_receipts,
            self.after_drop(receipt, round).pending_receipts.subset_of(self.pending_receipts),
            self.orderly() ==> self.after_drop(receipt, round).orderly(),
    {
        let next = self.after_drop(receipt, round);
        assert(next.receipts() =~= self.receipts());
    }

    /// A new transaction has the invariant, is orderly, and can be started.
    pub proof fn lemma_initial(
        id: TransactionId,
        sender_shard: ShardId,
        tx_conversion_cost: GGas,
        initial_receipt: ReceiptView,
    )
        requires
            initial_receipt.is_unstamped(),
        ensures
            Self::initial(id, sender_shard, tx_conversion_cost, initial_receipt).wf(),
            Self::initial(id, sender_shard, tx_conversion_cost, initial_receipt).orderly(),
            Self::initial(id, sender_shard, tx_conversion_cost, initial_receipt).can_start(),
            Self::initial(id, sender_shard, tx_conversion_cost, initial_receipt).receipt_count()
                == 1,
    {
        let state = Self::initial(id, sender_shard, tx_conversion_cost, initial_receipt);
        let alone = seq![initial_receipt.id];
        assert(is_path(state.outgoing, alone) && alone[0] == initial_receipt.id && alone.last()
            == initial_receipt.id);
    }

    /// Adding a receipt to the graph keeps the invariant: the new receipt is
    /// in the future, it is the one receipt more, and its one edge is
    /// recorded in both directions.
    pub proof fn lemma_add(self, producer: ReceiptId, receipt: ReceiptView)
        requires
            self.wf(),
            self.can_add(producer, receipt),
        ensures
            self.after_add(producer, receipt).wf(),
            self.after_add(producer, receipt).receipts() == self.receipts().insert(receipt.id),
            self.after_add(producer, receipt).receipt_count() == self.receipt_count() + 1,
            self.after_add(producer, receipt).has_edge(producer, receipt.id),
            self.after_add(producer, receipt).dependencies[receipt.id] == seq![producer],
            self.after_add(producer, receipt).can_start() == self.can_start(),
            self.orderly() ==> self.after_add(producer, receipt).orderly(),
    {
        let next = self.after_add(producer, receipt);
        let new = receipt.id;
        let grown = self.outgoing[producer].push(new);
        assert(grown.last() == new);
        // The edges of the new graph are the old edges and the new one.
        assert forall|from: ReceiptId, to: ReceiptId| #[trigger]
            next.has_edge(from, to) <==> self.has_edge(from, to) || (from == producer && to
                == new) by {
            if from == producer {
                if self.outgoing[producer].contains(to) {
                    let i = choose|i: int|
                        0 <= i < self.outgoing[producer].len() && self.outgoing[producer][i] == to;
                    assert(grown[i] == to);
                }
            }
        }
        assert(grown.no_duplicates()) by {
            assert(!self.has_edge(producer, new));
        }
        assert forall|from: ReceiptId, to: ReceiptId|
            next.dependencies.contains_key(to) implies (next.dependencies[to].contains(from)
                <==> #[trigger] next.has_edge(from, to)) by {
            if to == new {
                assert(seq![producer][0] == producer);
            }
        }
        assert forall|id: ReceiptId| #[trigger]
            next.outgoing.contains_key(id) implies next.is_reachable(id) by {
            let known = if id == new { producer } else { id };
            let path = choose|path: Seq<ReceiptId>|
                #[trigger] is_path(self.outgoing, path) && path[0] == self.initial_receipt
                    && path.last() == known;
            assert(is_path(next.outgoing, path));
            if id == new {
                assert(is_path(next.outgoing, path.push(new)));
            }
        }
    }

    /// A receipt that can be reached from the initial receipt along the
    /// edges of the graph is in exactly one of the four buckets.
    pub proof fn lemma_reachable_in_one_bucket(self, id: ReceiptId)
        requires
            self.wf(),
            self.is_reachable(id),
        ensures
            self.bucket_count(id) == 1,
            self.receipts().contains(id),
    {
        let path = choose|path: Seq<ReceiptId>|
            #[trigger] is_path(self.outgoing, path) && path[0] == self.initial_receipt
                && path.last() == id;
        if path.len() > 1 {
            let i = path.len() - 2;
            assert(self.has_edge(path[i], path[i + 1]));
        }
    }

    /// A sequence on which a path from the initial receipt ends is no cycle.
    proof fn lemma_no_path_onto_cycle(self, path: Seq<ReceiptId>, cycle: Seq<ReceiptId>, i: int)
        requires
            self.produced_once(),
            is_path(self.outgoing, path),
            path[0] == self.initial_receipt,
            0 <= i < cycle.len() - 1,
            path.last() == cycle[i],
        ensures
            !is_cycle(self.outgoing, cycle),
        decreases path.len(),
    {
        if is_cycle(self.outgoing, cycle) {
            let before = if i > 0 { i - 1 } else { cycle.len() - 2 };
            if path.len() == 1 {
                assert(!self.has_edge(cycle[before], self.initial_receipt));
            } else {
                self.lemma_no_path_onto_cycle(path.drop_last(), cycle, before);
            }
        }
    }

    /// The graph has no cycle: no receipt produces, along one edge or more,
    /// itself.
    pub proof fn lemma_acyclic(self, cycle: Seq<ReceiptId>)
        requires
            self.wf(),
        ensures
            !is_cycle(self.outgoing, cycle),
    {
        if is_cycle(self.outgoing, cycle) {
            let path = choose|path: Seq<ReceiptId>|
                #[trigger] is_path(self.outgoing, path) && path[0] == self.initial_receipt
                    && path.last() == cycle[0];
            self.lemma_no_path_onto_cycle(path, cycle, 0);
        }
    }

    /// Every receipt of the graph is in exactly one of the four buckets, and
    /// the buckets hold no other receipt.
    pub proof fn lemma_buckets_partition_graph(self, id: ReceiptId)
        requires
            self.wf(),
        ensures
            self.outgoing.contains_key(id) <==> self.bucket_count(id) == 1,
            !self.outgoing.contains_key(id) <==> self.bucket_count(id) == 0,
    {
    }

    /// In an orderly state a pending receipt can be executed whenever it
    /// carries no round that would end its life: creating what it produces
    /// cannot fail.
    pub proof fn lemma_pending_is_ready(self, id: ReceiptId)
        requires
            self.wf(),
            self.orderly(),
            self.is_pending(id),
        ensures
            self.ready(id),
    {
    }

    /// A state that comes after a later state comes after the earlier one.
    pub proof fn lemma_advances_transitive(self, middle: TransactionState, last: TransactionState)
        requires
            self.advances_to(middle),
            middle.advances_to(last),
        ensures
            self.advances_to(last),
    {
    }

    /// Once the transaction has been started, it cannot be started in any
    /// later state.
    pub proof fn lemma_started_for_good(self, later: TransactionState)
        requires
            self.advances_to(later),
            !self.can_start(),
        ensures
            !later.can_start(),
    {
    }

    /// `step` can be taken here.
    pub open spec fn allows(self, step: Step) -> bool {
        match step {
            Step::Start => self.can_start(),
            Step::Execute(receipt, _) => self.can_execute(receipt),
            Step::Drop(receipt, _) => self.can_drop(receipt),
        }
    }

    /// The state after `step`.
    pub open spec fn after(self, step: Step) -> TransactionState {
        match step {
            Step::Start => self.after_start(),
            Step::Execute(receipt, round) => self.after_execute(receipt, round),
            Step::Drop(receipt, round) => self.after_drop(receipt, round),
        }
    }

    /// The steps of `steps` can be taken here, one after the other.
    pub open spec fn allows_all(self, steps: Seq<Step>) -> bool
        decreases steps.len(),
    {
        steps.len() > 0 ==> self.allows(steps[0]) && self.after(steps[0]).allows_all(
            steps.drop_first(),
        )
    }

    /// The state after the steps of `steps`, taken one after the other.
    pub open spec fn after_all(self, steps: Seq<Step>) -> TransactionState
        decreases steps.len(),
    {
        if steps.len() > 0 {
            self.after(steps[0]).after_all(steps.drop_first())
        } else {
            self
        }
    }

    /// Every step keeps the invariant and the order of the lifecycle, the
    /// set of receipts and their number.
    pub proof fn lemma_step(self, step: Step)
        requires
            self.wf(),
            self.allows(step),
        ensures
            self.after(step).wf(),
            self.advances_to(self.after(step)),
            self.orderly() ==> self.after(step).orderly(),
    {
        match step {
            Step::Start => self.lemma_start(),
            Step::Execute(receipt, round) => self.lemma_execute(receipt, round),
            Step::Drop(receipt, round) => self.lemma_drop(receipt, round),
        }
    }

    /// However many steps are taken, the invariant holds afterwards, no
    /// receipt has moved backwards, and the receipts and their number are
    /// what they were.
    pub proof fn lemma_run(self, steps: Seq<Step>)
        requires
            self.wf(),
            self.allows_all(steps),
        ensures
            self.after_all(steps).wf(),
            self.advances_to(self.after_all(steps)),
            self.after_all(steps).receipts() == self.receipts(),
            self.after_all(steps).receipt_count() == self.receipt_count(),
            self.orderly() ==> self.after_all(steps).orderly(),
        decreases steps.len(),
    {
        if steps.len() > 0 {
            let next = self.after(steps[0]);
            self.lemma_step(steps[0]);
            next.lemma_run(steps.drop_first());
        }
    }

    /// In a run of steps the transaction is started at most once: after a
    /// start no later start is allowed.
    pub proof fn lemma_start_once(self, steps: Seq<Step>, i: int, j: int)
        requires
            self.wf(),
            self.allows_all(steps),
            0 <= i < j < steps.len(),
            steps[i] is Start,
        ensures
            !(steps[j] is Start),
        decreases steps.len(),
    {
        let next = self.after(steps[0]);
        let rest = steps.drop_first();
        self.lemma_step(steps[0]);
        if i == 0 {
            next.lemma_allows_prefix(rest, j - 1);
            next.lemma_run(rest.take(j - 1));
            next.lemma_allows_at(rest, j - 1);
        } else {
            next.lemma_start_once(rest, i - 1, j - 1);
        }
    }

    /// If a run can be taken, so can its beginning.
    pub proof fn lemma_allows_prefix(self, steps: Seq<Step>, n: int)
        requires
            self.allows_all(steps),
            0 <= n <= steps.len(),
        ensures
            self.allows_all(steps.take(n)),
        decreases n,
    {
        if n > 0 {
            assert(steps.take(n).drop_first() == steps.drop_first().take(n - 1));
            self.after(steps[0]).lemma_allows_prefix(steps.drop_first(), n - 1);
        }
    }

    /// If a run can be taken, each of its steps can be taken in the state
    /// that the steps before it lead to.
    pub proof fn lemma_allows_at(self, steps: Seq<Step>, n: int)
        requires
            self.allows_all(steps),
            0 <= n < steps.len(),
        ensures
            self.after_all(steps.take(n)).allows(steps[n]),
        decreases n,
    {
        if n > 0 {
            assert(steps.take(n).drop_first() == steps.drop_first().take(n - 1));
            self.after(steps[0]).lemma_allows_at(steps.drop_first(), n - 1);
        }
    }
}

} // verus!
