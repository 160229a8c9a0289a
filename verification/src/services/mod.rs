//! Background services.
pub mod dlq_settings;
pub mod cycle;
pub mod dlq_queue;
pub mod effects;
pub mod flow;
pub mod history;
pub mod run;
pub mod store;
pub mod transaction_processor;

pub use transaction_processor::{next_retry_at, TransactionProcessor};
