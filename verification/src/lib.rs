//! The rules of a transaction gateway: how queued inserts are batched, how the
//! dead-letter queue (DLQ) is retried, how tenant configurations are held and which
//! routes are served. Everything here works on plain values; connections, clocks and
//! channels belong to the program that drives it.
pub mod batch;
pub mod error;
pub mod routes;
pub mod services;
pub mod state;
pub mod time;

pub use batch::{
    BatchInsertRequest, BATCH_CHANNEL_CAPACITY, BATCH_INSERT_SIZE, BATCH_INSERT_TIMEOUT_MS,
};
pub use error::AppError;
pub use routes::create_app;
pub use state::AppState;
