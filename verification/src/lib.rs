//! Bookkeeping for one transaction of a sharded chain, seen as a graph of
//! receipts.
//!
//! A transaction is converted into a first receipt; executing a receipt may
//! produce further receipts on other shards. [`Transaction`] records which
//! receipts exist, which of four lifecycle buckets each one is in, and hands
//! out the gas and the newly produced receipts of every step. Its
//! mathematical model is [`TransactionState`], over which all contracts and
//! laws are stated.

pub mod ids;
pub mod receipt;
pub mod state;
pub mod laws;
pub mod transaction;

pub use ids::{GGas, ReceiptId, Round, ShardId, TransactionId};
pub use receipt::{Receipt, ReceiptView};
pub use laws::Step;
pub use state::{GraphError, TransactionState};
pub use transaction::{ExecutionResult, ExecutionResultView, Transaction};
