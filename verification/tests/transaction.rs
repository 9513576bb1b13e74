use congestion_model::{
    ExecutionResult, GraphError, Receipt, ReceiptId, ShardId, Transaction, TransactionId,
};

const T: TransactionId = TransactionId(7);

fn rid(index: u64) -> ReceiptId {
    ReceiptId { transaction_id: T, index }
}

fn future(index: u64, receiver: usize, attached_gas: u64, execution_gas: u64) -> Receipt {
    Receipt::new_future_receipt(rid(index), ShardId(receiver), 100, attached_gas, execution_gas)
}

/// R0 produces R1 and R2, which produce nothing.
fn small_transaction() -> Transaction {
    let mut tx = Transaction::new(T, ShardId(0), 2, future(0, 1, 10, 3)).unwrap();
    tx.add_outgoing_receipt(rid(0), future(1, 2, 4, 5)).unwrap();
    tx.add_outgoing_receipt(rid(0), future(2, 3, 6, 7)).unwrap();
    tx
}

/// R0 produces R1 and R2; R1 produces R3 and R4; R3 produces R5.
fn deep_transaction() -> Transaction {
    let mut tx = small_transaction();
    tx.add_outgoing_receipt(rid(1), future(3, 0, 1, 11)).unwrap();
    tx.add_outgoing_receipt(rid(1), future(4, 1, 1, 13)).unwrap();
    tx.add_outgoing_receipt(rid(3), future(5, 2, 1, 17)).unwrap();
    tx
}

fn only(mut result: ExecutionResult) -> Receipt {
    assert_eq!(result.new_receipts.len(), 1);
    result.new_receipts.pop().unwrap()
}

/// In how many of the four buckets `id` is.
fn buckets(tx: &Transaction, id: ReceiptId) -> usize {
    let mut n = 0;
    if tx.is_future(id) {
        n += 1;
    }
    if tx.is_pending(id) {
        n += 1;
    }
    if tx.dropped_receipt(id).is_some() {
        n += 1;
    }
    if tx.executed_receipt(id).is_some() {
        n += 1;
    }
    n
}

fn assert_partition(tx: &Transaction, receipts: u64) {
    for index in 0..receipts {
        assert_eq!(buckets(tx, rid(index)), 1, "receipt {}", index);
    }
    assert_eq!(buckets(tx, rid(receipts)), 0);
    assert_eq!(buckets(tx, ReceiptId { transaction_id: TransactionId(8), index: 0 }), 0);
}

#[test]
fn new_transaction_holds_its_initial_receipt() {
    let tx = Transaction::new(T, ShardId(4), 2, future(0, 1, 10, 3)).unwrap();
    assert_eq!(tx.id(), T);
    assert_eq!(tx.sender_shard(), ShardId(4));
    assert_eq!(tx.initial_receipt(), rid(0));
    assert_eq!(tx.initial_receipt_receiver(), ShardId(1));
    assert_eq!(tx.initial_receipt_gas(), 10);
    assert_eq!(tx.tx_conversion_cost(), 2);
    assert!(tx.is_future(rid(0)));
    assert!(!tx.is_pending(rid(0)));
    assert!(tx.can_start());
    assert_eq!(tx.outgoing(rid(0)), Some(&vec![]));
    assert_eq!(tx.dependencies(rid(0)), Some(&vec![]));
    assert_eq!(tx.outgoing(rid(1)), None);
    assert_partition(&tx, 1);
}

#[test]
fn new_refuses_a_stamped_receipt() {
    let mut created = future(0, 1, 10, 3);
    created.created_at = Some(1);
    assert_eq!(Transaction::new(T, ShardId(0), 2, created).err(), Some(GraphError::StampedReceipt));
    let mut dropped = future(0, 1, 10, 3);
    dropped.dropped_at = Some(1);
    assert_eq!(Transaction::new(T, ShardId(0), 2, dropped).err(), Some(GraphError::StampedReceipt));
    let mut executed = future(0, 1, 10, 3);
    executed.executed_at = Some(1);
    assert_eq!(
        Transaction::new(T, ShardId(0), 2, executed).err(),
        Some(GraphError::StampedReceipt)
    );
}

#[test]
fn add_records_the_edge_both_ways() {
    let tx = deep_transaction();
    assert_eq!(tx.outgoing(rid(0)), Some(&vec![rid(1), rid(2)]));
    assert_eq!(tx.outgoing(rid(1)), Some(&vec![rid(3), rid(4)]));
    assert_eq!(tx.outgoing(rid(2)), Some(&vec![]));
    assert_eq!(tx.outgoing(rid(3)), Some(&vec![rid(5)]));
    assert_eq!(tx.outgoing(rid(5)), Some(&vec![]));
    assert_eq!(tx.dependencies(rid(0)), Some(&vec![]));
    assert_eq!(tx.dependencies(rid(1)), Some(&vec![rid(0)]));
    assert_eq!(tx.dependencies(rid(2)), Some(&vec![rid(0)]));
    assert_eq!(tx.dependencies(rid(4)), Some(&vec![rid(1)]));
    assert_eq!(tx.dependencies(rid(5)), Some(&vec![rid(3)]));
    assert_eq!(tx.dependencies(rid(6)), None);
    for index in 0..6 {
        assert!(tx.is_future(rid(index)));
    }
    assert_partition(&tx, 6);
}

#[test]
fn add_refuses_a_stamped_receipt() {
    let mut tx = small_transaction();
    let mut receipt = future(3, 0, 1, 1);
    receipt.executed_at = Some(9);
    assert_eq!(tx.add_outgoing_receipt(rid(0), receipt), Err(GraphError::StampedReceipt));
    assert_eq!(tx.outgoing(rid(0)), Some(&vec![rid(1), rid(2)]));
    assert_eq!(buckets(&tx, rid(3)), 0);
}

#[test]
fn add_refuses_an_unknown_producer() {
    let mut tx = small_transaction();
    assert_eq!(
        tx.add_outgoing_receipt(rid(9), future(3, 0, 1, 1)),
        Err(GraphError::UnknownProducer)
    );
    assert_eq!(tx.outgoing(rid(9)), None);
    assert_eq!(tx.outgoing(rid(3)), None);
    assert_eq!(buckets(&tx, rid(3)), 0);
}

#[test]
fn add_refuses_a_duplicate_receipt() {
    let mut tx = small_transaction();
    assert_eq!(
        tx.add_outgoing_receipt(rid(1), future(2, 0, 1, 1)),
        Err(GraphError::DuplicateReceipt)
    );
    assert_eq!(
        tx.add_outgoing_receipt(rid(0), future(0, 0, 1, 1)),
        Err(GraphError::DuplicateReceipt)
    );
    assert_eq!(tx.outgoing(rid(1)), Some(&vec![]));
    assert_eq!(tx.outgoing(rid(0)), Some(&vec![rid(1), rid(2)]));
    assert_eq!(tx.dependencies(rid(2)), Some(&vec![rid(0)]));
}

#[test]
fn add_names_the_first_reason() {
    let mut tx = small_transaction();
    let mut stamped = future(1, 0, 1, 1);
    stamped.created_at = Some(1);
    // stamped, unknown producer and duplicate at once
    assert_eq!(tx.add_outgoing_receipt(rid(9), stamped), Err(GraphError::StampedReceipt));
    // unknown producer and duplicate at once
    assert_eq!(
        tx.add_outgoing_receipt(rid(9), future(1, 0, 1, 1)),
        Err(GraphError::UnknownProducer)
    );
}

#[test]
fn a_receipt_may_produce_itself_never() {
    let mut tx = small_transaction();
    // a receipt that names itself as producer is not in the graph yet
    assert_eq!(
        tx.add_outgoing_receipt(rid(3), future(3, 0, 1, 1)),
        Err(GraphError::UnknownProducer)
    );
}

#[test]
fn start_creates_the_initial_receipt() {
    let mut tx = small_transaction();
    let result = tx.start(5);
    assert_eq!(result.gas_burnt, 2);
    assert_eq!(result.new_receipts.len(), 1);
    let receipt = &result.new_receipts[0];
    assert_eq!(receipt.id, rid(0));
    assert_eq!(receipt.created_at, Some(5));
    assert_eq!(receipt.dropped_at, None);
    assert_eq!(receipt.executed_at, None);
    assert_eq!(receipt.receiver, ShardId(1));
    assert_eq!(receipt.size, 100);
    assert_eq!(receipt.attached_gas, 10);
    assert_eq!(receipt.gas_burnt(), 0);
    assert!(tx.is_pending(rid(0)));
    assert!(!tx.is_future(rid(0)));
    assert!(tx.is_future(rid(1)));
    assert!(tx.is_future(rid(2)));
    assert_partition(&tx, 3);
}

#[test]
fn a_started_transaction_cannot_start() {
    let mut tx = small_transaction();
    assert!(tx.can_start());
    let r0 = only(tx.start(1));
    assert!(!tx.can_start());
    let produced = tx.execute_receipt(r0, 2);
    assert!(!tx.can_start());
    for receipt in produced.new_receipts {
        tx.drop_receipt(receipt, 3);
        assert!(!tx.can_start());
    }
}

#[test]
fn execute_moves_the_receipt_and_creates_its_products() {
    let mut tx = small_transaction();
    let r0 = only(tx.start(1));
    assert!(tx.can_execute(&r0));
    let result = tx.execute_receipt(r0, 2);
    assert_eq!(result.gas_burnt, 3);
    assert_eq!(result.new_receipts.len(), 2);
    assert_eq!(result.new_receipts[0].id, rid(1));
    assert_eq!(result.new_receipts[1].id, rid(2));
    assert_eq!(result.new_receipts[0].created_at, Some(2));
    assert_eq!(result.new_receipts[1].created_at, Some(2));
    assert_eq!(result.new_receipts[0].receiver, ShardId(2));
    assert_eq!(result.new_receipts[1].receiver, ShardId(3));
    assert_eq!(result.new_receipts[0].attached_gas, 4);
    assert_eq!(result.new_receipts[1].attached_gas, 6);
    assert_eq!(result.new_receipts[0].executed_at, None);
    assert_eq!(result.new_receipts[0].gas_burnt(), 0);

    let executed = tx.executed_receipt(rid(0)).unwrap();
    assert_eq!(executed.id, rid(0));
    assert_eq!(executed.created_at, Some(1));
    assert_eq!(executed.executed_at, Some(2));
    assert_eq!(executed.dropped_at, None);
    assert_eq!(executed.gas_burnt(), 3);
    assert!(!tx.is_pending(rid(0)));
    assert!(tx.is_pending(rid(1)));
    assert!(tx.is_pending(rid(2)));
    assert!(!tx.is_future(rid(1)));
    assert!(!tx.is_future(rid(2)));
    assert_partition(&tx, 3);
}

#[test]
fn execute_of_a_leaf_creates_nothing() {
    let mut tx = small_transaction();
    let r0 = only(tx.start(1));
    let mut produced = tx.execute_receipt(r0, 2).new_receipts;
    let r2 = produced.pop().unwrap();
    let result = tx.execute_receipt(r2, 4);
    assert_eq!(result.gas_burnt, 7);
    assert!(result.new_receipts.is_empty());
    assert_eq!(tx.executed_receipt(rid(2)).unwrap().executed_at, Some(4));
    assert_eq!(tx.executed_receipt(rid(2)).unwrap().created_at, Some(2));
    assert!(tx.is_pending(rid(1)));
    assert_partition(&tx, 3);
}

#[test]
fn drop_moves_the_receipt_and_creates_nothing() {
    let mut tx = deep_transaction();
    let r0 = only(tx.start(1));
    let mut produced = tx.execute_receipt(r0, 2).new_receipts;
    let r2 = produced.pop().unwrap();
    let r1 = produced.pop().unwrap();
    assert!(tx.can_drop(&r1));
    tx.drop_receipt(r1, 3);
    let dropped = tx.dropped_receipt(rid(1)).unwrap();
    assert_eq!(dropped.id, rid(1));
    assert_eq!(dropped.created_at, Some(2));
    assert_eq!(dropped.dropped_at, Some(3));
    assert_eq!(dropped.executed_at, None);
    assert_eq!(dropped.gas_burnt(), 0);
    assert!(tx.executed_receipt(rid(1)).is_none());
    assert!(!tx.is_pending(rid(1)));
    // what the dropped receipt would have produced stays in the future
    assert!(tx.is_future(rid(3)));
    assert!(tx.is_future(rid(4)));
    assert!(tx.is_future(rid(5)));
    assert!(!tx.is_pending(rid(3)));
    assert!(!tx.is_pending(rid(4)));
    assert!(tx.is_pending(rid(2)));
    assert!(tx.can_execute(&r2));
    assert_partition(&tx, 6);
}

#[test]
fn example_scenario() {
    let mut tx = small_transaction();
    assert_eq!(tx.initial_receipt_gas(), 10);
    assert_eq!(tx.initial_receipt_receiver(), ShardId(1));

    let started = tx.start(1);
    assert_eq!(started.gas_burnt, 2);
    assert_eq!(started.new_receipts.len(), 1);
    assert_eq!(started.new_receipts[0].id, rid(0));
    let r0 = only(started);

    let mut executed = tx.execute_receipt(r0, 2);
    assert_eq!(executed.gas_burnt, 3);
    let ids: Vec<ReceiptId> = executed.new_receipts.iter().map(|receipt| receipt.id).collect();
    assert_eq!(ids, vec![rid(1), rid(2)]);
    assert!(tx.executed_receipt(rid(0)).is_some());

    let _r2 = executed.new_receipts.pop().unwrap();
    let r1 = executed.new_receipts.pop().unwrap();
    tx.drop_receipt(r1, 3);
    assert!(tx.dropped_receipt(rid(1)).is_some());
    assert_eq!(tx.dropped_receipt(rid(1)).unwrap().dropped_at, Some(3));
    assert!(tx.is_pending(rid(2)));
    assert!(!tx.is_pending(rid(1)));
}

#[test]
fn every_receipt_is_in_one_bucket_after_every_step() {
    let mut tx = deep_transaction();
    assert_partition(&tx, 6);
    let r0 = only(tx.start(1));
    assert_partition(&tx, 6);
    let mut from_r0 = tx.execute_receipt(r0, 2).new_receipts;
    assert_partition(&tx, 6);
    let r2 = from_r0.pop().unwrap();
    let r1 = from_r0.pop().unwrap();
    let mut from_r1 = tx.execute_receipt(r1, 3).new_receipts;
    assert_partition(&tx, 6);
    let r4 = from_r1.pop().unwrap();
    let r3 = from_r1.pop().unwrap();
    tx.drop_receipt(r3, 4);
    assert_partition(&tx, 6);
    tx.drop_receipt(r2, 4);
    assert_partition(&tx, 6);
    let from_r4 = tx.execute_receipt(r4, 5);
    assert!(from_r4.new_receipts.is_empty());
    assert_eq!(from_r4.gas_burnt, 13);
    assert_partition(&tx, 6);

    // at the end: R0, R1, R4 executed; R2, R3 dropped; R5 never created
    assert!(tx.executed_receipt(rid(0)).is_some());
    assert!(tx.executed_receipt(rid(1)).is_some());
    assert!(tx.executed_receipt(rid(4)).is_some());
    assert!(tx.dropped_receipt(rid(2)).is_some());
    assert!(tx.dropped_receipt(rid(3)).is_some());
    assert!(tx.is_future(rid(5)));
}

#[test]
fn queries_do_not_change_the_state() {
    let mut tx = small_transaction();
    let r0 = only(tx.start(1));
    let _ = tx.execute_receipt(r0, 2);
    for _ in 0..2 {
        assert!(!tx.is_future(rid(0)));
        assert!(!tx.is_pending(rid(0)));
        assert!(tx.dropped_receipt(rid(0)).is_none());
        assert_eq!(tx.executed_receipt(rid(0)).unwrap().executed_at, Some(2));
        assert_eq!(tx.executed_receipt(rid(0)).unwrap().gas_burnt(), 3);
        assert!(tx.is_pending(rid(1)));
        assert!(tx.is_pending(rid(2)));
        assert!(!tx.is_future(rid(1)));
        assert_eq!(tx.outgoing(rid(0)), Some(&vec![rid(1), rid(2)]));
        assert_eq!(tx.dependencies(rid(1)), Some(&vec![rid(0)]));
        assert!(!tx.can_start());
        assert_eq!(tx.initial_receipt_gas(), 10);
        assert_eq!(tx.initial_receipt_receiver(), ShardId(1));
    }
}

#[test]
fn activate_receipt_finds_only_future_receipts() {
    let mut tx = small_transaction();
    let receipt = tx.activate_receipt(rid(1), 8).unwrap();
    assert_eq!(receipt.id, rid(1));
    assert_eq!(receipt.created_at, Some(8));
    assert_eq!(receipt.receiver, ShardId(2));
    assert_eq!(receipt.attached_gas, 4);
    assert!(tx.is_pending(rid(1)));
    assert!(!tx.is_future(rid(1)));
    // already created
    assert!(tx.activate_receipt(rid(1), 9).is_none());
    assert!(tx.is_pending(rid(1)));
    // not in the graph
    assert!(tx.activate_receipt(rid(5), 9).is_none());
    assert!(!tx.is_pending(rid(5)));
    // of another transaction
    let foreign = ReceiptId { transaction_id: TransactionId(8), index: 2 };
    assert!(tx.activate_receipt(foreign, 9).is_none());
    assert!(tx.is_future(rid(2)));
    assert_partition(&tx, 3);
}

#[test]
fn activate_receipt_does_not_find_resolved_receipts() {
    let mut tx = small_transaction();
    let r0 = only(tx.start(1));
    let mut produced = tx.execute_receipt(r0, 2).new_receipts;
    let r2 = produced.pop().unwrap();
    tx.drop_receipt(r2, 3);
    assert!(tx.activate_receipt(rid(0), 4).is_none());
    assert!(tx.activate_receipt(rid(2), 4).is_none());
    assert!(tx.executed_receipt(rid(0)).is_some());
    assert!(tx.dropped_receipt(rid(2)).is_some());
}

#[test]
fn can_execute_tells_what_would_fail() {
    let mut tx = small_transaction();
    // still in the future
    assert!(!tx.can_execute(&future(0, 1, 10, 3)));
    let r0 = only(tx.start(1));
    assert!(tx.can_execute(&r0));
    // not in the graph
    assert!(!tx.can_execute(&future(9, 1, 10, 3)));
    // carries the round of a drop
    let mut resolved = r0.clone();
    resolved.dropped_at = Some(1);
    assert!(!tx.can_execute(&resolved));
    let mut resolved = r0.clone();
    resolved.executed_at = Some(1);
    assert!(!tx.can_execute(&resolved));
    // one of its products was created behind its back
    let _r2 = tx.activate_receipt(rid(2), 1).unwrap();
    assert!(!tx.can_execute(&r0));
    assert!(tx.can_drop(&r0));
}

#[test]
fn can_drop_tells_what_would_fail() {
    let mut tx = small_transaction();
    assert!(!tx.can_drop(&future(0, 1, 10, 3)));
    let r0 = only(tx.start(1));
    assert!(tx.can_drop(&r0));
    let mut resolved = r0.clone();
    resolved.executed_at = Some(1);
    assert!(!tx.can_drop(&resolved));
    let mut resolved = r0.clone();
    resolved.dropped_at = Some(1);
    assert!(!tx.can_drop(&resolved));
    assert!(!tx.can_drop(&future(9, 1, 10, 3)));
    let witness = r0.clone();
    tx.drop_receipt(r0, 2);
    assert!(!tx.can_drop(&witness));
    assert!(!tx.can_execute(&witness));
}

#[test]
fn receipts_may_join_after_the_start() {
    let mut tx = small_transaction();
    let r0 = only(tx.start(1));
    tx.add_outgoing_receipt(rid(0), future(3, 0, 1, 19)).unwrap();
    let produced = tx.execute_receipt(r0, 2).new_receipts;
    let ids: Vec<ReceiptId> = produced.iter().map(|receipt| receipt.id).collect();
    assert_eq!(ids, vec![rid(1), rid(2), rid(3)]);
    assert_partition(&tx, 4);
}

#[test]
fn rounds_are_recorded_as_given() {
    let mut tx = small_transaction();
    let r0 = only(tx.start(u64::MAX));
    assert_eq!(r0.created_at, Some(u64::MAX));
    let produced = tx.execute_receipt(r0, 0).new_receipts;
    assert_eq!(tx.executed_receipt(rid(0)).unwrap().executed_at, Some(0));
    assert_eq!(produced[0].created_at, Some(0));
}

#[test]
fn receipts_of_two_transactions_do_not_meet() {
    let other = TransactionId(8);
    let first = ReceiptId { transaction_id: other, index: 0 };
    let mut tx = Transaction::new(
        other,
        ShardId(0),
        1,
        Receipt::new_future_receipt(first, ShardId(1), 1, 1, 1),
    )
    .unwrap();
    // the same index under another transaction is another receipt
    tx.add_outgoing_receipt(first, future(0, 2, 1, 1)).unwrap();
    assert_eq!(tx.outgoing(first), Some(&vec![rid(0)]));
    assert!(tx.is_future(first));
    assert!(tx.is_future(rid(0)));
    let started = only(tx.start(1));
    assert_eq!(started.id, first);
    assert_eq!(started.transaction_id(), other);
    assert!(tx.is_future(rid(0)));
    assert!(!tx.is_pending(rid(0)));
}
