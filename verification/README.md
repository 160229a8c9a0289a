# synapse-core

The rules of a transaction gateway, verified with Verus, and the service around them.

- `src/batch.rs`: collecting inserts into batches and handing the results back.
- `src/services/transaction_processor.rs`: completing transactions, requeueing and
  retrying entries of the dead-letter queue (DLQ), and the exponential backoff.
- `src/services/flow.rs`: the steps of those procedures, request by request.
- `src/services/store.rs`: the SQL statements and what they do to the tables.
- `src/services/run.rs`, `src/services/cycle.rs`, `src/services/history.rs`: what the
  procedures, a whole retry cycle and any number of them do to the tables, whichever
  statements fail.
- `src/services/dlq_queue.rs`: which entries are due, and in what order. `select_due` is
  an executable model of that rule; in the service the database selects.
- `src/services/dlq_settings.rs`: the settings of the queue, read from text.
- `src/state.rs`: the shared settings and the tenants' configurations.
- `src/routes.rs`: the routes that are served.
- `src/time.rs`: instants, and the one trusted call, which is into `chrono`.
- `app/`: database, channels, clock, environment and HTTP. It performs what the library
  asks for and hands back how it went.

A statement that fails is taken to have changed nothing, and `updated_at` columns, which
the database sets from its own clock, are not part of the table model.
