//! Verified core of a transaction processor with hexagonal architecture:
//!
//!   sources (port and adapters)  ->  processor core  ->  storage (port and adapters)
//!
//! Deposits and withdrawals change the account of a client; disputes, resolves and chargebacks
//! refer to earlier deposits. A source fans the transactions out into a number of channels with a
//! routing function keyed by the client, and each channel is drained by a worker that works on a
//! [`Storage`].
//!
//! The rules are stated as mathematics in [`ledger`], over the decimal numbers of [`amount`].
//! [`processor`] and [`storage`] are proved to follow them, and [`laws`] proves what follows from
//! the rules themselves.

pub mod amount;
pub mod domain;
pub mod laws;
pub mod ledger;
pub mod paging;
pub mod ports;
pub mod processor;
pub mod report;
pub mod sources;
pub mod storage;

pub use amount::Amount;
pub use domain::{Account, ProcessorSoftFailures, Transaction, TxType};
pub use ports::{ProcessOutcome, Storage, TransactionError};
pub use processor::{TransactionProcessor, TransactionProcessorBuilder};
pub use sources::route;
