//! The statements that the transaction processor runs against its database, and what
//! they do to the two tables they touch.
use super::dlq_settings::{decimal, digits_value, unsigned_part};
use crate::time::Timestamp;
use vstd::prelude::*;

verus! {

/// The most due entries that one retry cycle takes up.
pub const DUE_LIMIT: usize = 50;

/// An entry of the dead-letter queue. `T` is the type of its texts: `String` in a value
/// at run time, `Seq<char>` in a row of the table model.
#[derive(Debug)]
pub struct TransactionDlq<T> {
    pub id: u128,
    pub transaction_id: u128,
    pub asset_code: T,
    pub error_reason: T,
    pub retry_count: i32,
    pub permanently_failed: bool,
    pub moved_to_dlq_at: Timestamp,
    pub last_retry_at: Option<Timestamp>,
    pub next_retry_at: Option<Timestamp>,
}

impl View for TransactionDlq<String> {
    type V = TransactionDlq<Seq<char>>;

    open spec fn view(&self) -> TransactionDlq<Seq<char>> {
        TransactionDlq {
            id: self.id,
            transaction_id: self.transaction_id,
            asset_code: self.asset_code@,
            error_reason: self.error_reason@,
            retry_count: self.retry_count,
            permanently_failed: self.permanently_failed,
            moved_to_dlq_at: self.moved_to_dlq_at,
            last_retry_at: self.last_retry_at,
            next_retry_at: self.next_retry_at,
        }
    }
}

/// A value bound to a statement.
#[derive(Clone, Copy, Debug, PartialEq, Eq, Structural)]
pub enum Param {
    /// The identifier of a row.
    Id(u128),
    /// A count.
    Count(i32),
    /// An instant.
    At(Timestamp),
}

/// A statement with the values bound to it. Identifiers are the 128 bits of a UUID.
#[derive(Clone, Copy, Debug, PartialEq, Eq, Structural)]
pub enum Statement {
    /// Reads the asset code of a transaction.
    SelectAssetCode { tx_id: u128 },
    /// Reads which transaction a DLQ entry is about.
    SelectTransactionId { dlq_id: u128 },
    /// Reads the entries that are due at `now`.
    SelectDue { now: Timestamp },
    /// Sets a transaction's status to completed.
    CompleteTransaction { tx_id: u128 },
    /// Sets a transaction's status to pending.
    RequeueTransaction { tx_id: u128 },
    /// Removes a DLQ entry.
    DeleteEntry { dlq_id: u128 },
    /// Marks a DLQ entry as permanently failed.
    FailEntry { dlq_id: u128, last_retry_at: Timestamp },
    /// Records a retry of a DLQ entry and when the next one is due.
    RescheduleEntry {
        dlq_id: u128,
        retry_count: i32,
        last_retry_at: Timestamp,
        next_retry_at: Timestamp,
    },
}

impl Statement {
    /// The statement's SQL, with a placeholder for each of its parameters.
    pub open spec fn sql_text(self) -> Seq<char> {
        match self {
            Statement::SelectAssetCode { .. } => "SELECT asset_code FROM transactions WHERE id = $1"@,
            Statement::SelectTransactionId { .. } =>
                "SELECT transaction_id FROM transaction_dlq WHERE id = $1"@,
            Statement::SelectDue { .. } =>
                "SELECT * FROM transaction_dlq WHERE permanently_failed = FALSE AND (next_retry_at IS NULL OR next_retry_at <= $1) ORDER BY moved_to_dlq_at ASC LIMIT 50"@,
            Statement::CompleteTransaction { .. } =>
                "UPDATE transactions SET status = 'completed', updated_at = NOW() WHERE id = $1"@,
            Statement::RequeueTransaction { .. } =>
                "UPDATE transactions SET status = 'pending', updated_at = NOW() WHERE id = $1"@,
            Statement::DeleteEntry { .. } => "DELETE FROM transaction_dlq WHERE id = $1"@,
            Statement::FailEntry { .. } =>
                "UPDATE transaction_dlq SET permanently_failed = TRUE, last_retry_at = $1 WHERE id = $2"@,
            Statement::RescheduleEntry { .. } =>
                "UPDATE transaction_dlq SET retry_count = $1, last_retry_at = $2, next_retry_at = $3 WHERE id = $4"@,
        }
    }

    /// The values for the statement's placeholders: `$1` is the first.
    pub open spec fn param_values(self) -> Seq<Param> {
        match self {
            Statement::SelectAssetCode { tx_id } => seq![Param::Id(tx_id)],
            Statement::SelectTransactionId { dlq_id } => seq![Param::Id(dlq_id)],
            Statement::SelectDue { now } => seq![Param::At(now)],
            Statement::CompleteTransaction { tx_id } => seq![Param::Id(tx_id)],
            Statement::RequeueTransaction { tx_id } => seq![Param::Id(tx_id)],
            Statement::DeleteEntry { dlq_id } => seq![Param::Id(dlq_id)],
            Statement::FailEntry { dlq_id, last_retry_at } => seq![
                Param::At(last_retry_at),
                Param::Id(dlq_id),
            ],
            Statement::RescheduleEntry { dlq_id, retry_count, last_retry_at, next_retry_at } =>
                seq![
                Param::Count(retry_count),
                Param::At(last_retry_at),
                Param::At(next_retry_at),
                Param::Id(dlq_id),
            ],
        }
    }

    /// The values for the statement's placeholders, in order.
    pub fn params(&self) -> (r: Vec<Param>)
        ensures
            r@ == self.param_values(),
            match *self {
                Statement::SelectAssetCode { tx_id } => r@ == seq![Param::Id(tx_id)],
                Statement::SelectTransactionId { dlq_id } => r@ == seq![Param::Id(dlq_id)],
                Statement::SelectDue { now } => r@ == seq![Param::At(now)],
                Statement::CompleteTransaction { tx_id } => r@ == seq![Param::Id(tx_id)],
                Statement::RequeueTransaction { tx_id } => r@ == seq![Param::Id(tx_id)],
                Statement::DeleteEntry { dlq_id } => r@ == seq![Param::Id(dlq_id)],
                Statement::FailEntry { dlq_id, last_retry_at } => r@ == seq![
                    Param::At(last_retry_at),
                    Param::Id(dlq_id),
                ],
                Statement::RescheduleEntry { dlq_id, retry_count, last_retry_at, next_retry_at } =>
                    r@ == seq![
                    Param::Count(retry_count),
                    Param::At(last_retry_at),
                    Param::At(next_retry_at),
                    Param::Id(dlq_id),
                ],
            },
    {
        let r: Vec<Param> = match *self {
            Statement::SelectAssetCode { tx_id } => vec![Param::Id(tx_id)],
            Statement::SelectTransactionId { dlq_id } => vec![Param::Id(dlq_id)],
            Statement::SelectDue { now } => vec![Param::At(now)],
            Statement::CompleteTransaction { tx_id } => vec![Param::Id(tx_id)],
            Statement::RequeueTransaction { tx_id } => vec![Param::Id(tx_id)],
            Statement::DeleteEntry { dlq_id } => vec![Param::Id(dlq_id)],
            Statement::FailEntry { dlq_id, last_retry_at } => vec![
                Param::At(last_retry_at),
                Param::Id(dlq_id),
            ],
            Statement::RescheduleEntry { dlq_id, retry_count, last_retry_at, next_retry_at } =>
                vec![
                Param::Count(retry_count),
                Param::At(last_retry_at),
                Param::At(next_retry_at),
                Param::Id(dlq_id),
            ],
        };
        assert(r@ =~= self.param_values());
        r
    }

    /// The statement's SQL.
    pub fn sql(&self) -> (r: &'static str)
        ensures
            r@ == self.sql_text(),
            self is SelectAssetCode ==> r@ == "SELECT asset_code FROM transactions WHERE id = $1"@,
            self is SelectTransactionId ==> r@ == "SELECT transaction_id FROM transaction_dlq WHERE id = $1"@,
            self is SelectDue ==> r@ == "SELECT * FROM transaction_dlq WHERE permanently_failed = FALSE AND (next_retry_at IS NULL OR next_retry_at <= $1) ORDER BY moved_to_dlq_at ASC LIMIT 50"@,
            self is CompleteTransaction ==> r@ == "UPDATE transactions SET status = 'completed', updated_at = NOW() WHERE id = $1"@,
            self is RequeueTransaction ==> r@ == "UPDATE transactions SET status = 'pending', updated_at = NOW() WHERE id = $1"@,
            self is DeleteEntry ==> r@ == "DELETE FROM transaction_dlq WHERE id = $1"@,
            self is FailEntry ==> r@ == "UPDATE transaction_dlq SET permanently_failed = TRUE, last_retry_at = $1 WHERE id = $2"@,
            self is RescheduleEntry ==> r@ == "UPDATE transaction_dlq SET retry_count = $1, last_retry_at = $2, next_retry_at = $3 WHERE id = $4"@,
    {
        match self {
            Statement::SelectAssetCode { .. } => "SELECT asset_code FROM transactions WHERE id = $1",
            Statement::SelectTransactionId { .. } =>
                "SELECT transaction_id FROM transaction_dlq WHERE id = $1",
            Statement::SelectDue { .. } =>
                "SELECT * FROM transaction_dlq WHERE permanently_failed = FALSE AND (next_retry_at IS NULL OR next_retry_at <= $1) ORDER BY moved_to_dlq_at ASC LIMIT 50",
            Statement::CompleteTransaction { .. } =>
                "UPDATE transactions SET status = 'completed', updated_at = NOW() WHERE id = $1",
            Statement::RequeueTransaction { .. } =>
                "UPDATE transactions SET status = 'pending', updated_at = NOW() WHERE id = $1",
            Statement::DeleteEntry { .. } => "DELETE FROM transaction_dlq WHERE id = $1",
            Statement::FailEntry { .. } =>
                "UPDATE transaction_dlq SET permanently_failed = TRUE, last_retry_at = $1 WHERE id = $2",
            Statement::RescheduleEntry { .. } =>
                "UPDATE transaction_dlq SET retry_count = $1, last_retry_at = $2, next_retry_at = $3 WHERE id = $4",
        }
    }
}

/// The status of a transaction, as far as the processor sets it.
pub enum Status {
    Pending,
    Completed,
    /// Any status that the processor does not set.
    Other(Seq<char>),
}

/// A row of `transactions`: the columns that the statements read or set. `updated_at`,
/// which each update sets to the database's own clock, is left out.
pub struct TransactionRow {
    pub asset_code: Seq<char>,
    pub status: Status,
}

/// The contents of the two tables, by primary key.
#[verifier::ext_equal]
pub struct Tables {
    pub transactions: Map<u128, TransactionRow>,
    pub dlq: Map<u128, TransactionDlq<Seq<char>>>,
}

impl Tables {
    /// Every DLQ row stands under its own identifier.
    pub open spec fn wf(self) -> bool {
        forall|id: u128| #[trigger] self.dlq.dom().contains(id) ==> self.dlq[id].id == id
    }

    /// The tables with a transaction's status set; an update of a missing row changes
    /// nothing.
    pub open spec fn with_status(self, tx_id: u128, status: Status) -> Tables {
        if self.transactions.dom().contains(tx_id) {
            Tables {
                transactions: self.transactions.insert(
                    tx_id,
                    TransactionRow { status, ..self.transactions[tx_id] },
                ),
                ..self
            }
        } else {
            self
        }
    }

    /// The tables with a DLQ row replaced; an update of a missing row changes nothing.
    pub open spec fn with_entry(self, dlq_id: u128, row: TransactionDlq<Seq<char>>) -> Tables {
        if self.dlq.dom().contains(dlq_id) {
            Tables { dlq: self.dlq.insert(dlq_id, row), ..self }
        } else {
            self
        }
    }

    /// What a statement leaves in the tables.
    pub open spec fn after(self, statement: Statement) -> Tables {
        match statement {
            Statement::SelectAssetCode { .. } => self,
            Statement::SelectTransactionId { .. } => self,
            Statement::SelectDue { .. } => self,
            Statement::CompleteTransaction { tx_id } => self.with_status(tx_id, Status::Completed),
            Statement::RequeueTransaction { tx_id } => self.with_status(tx_id, Status::Pending),
            Statement::DeleteEntry { dlq_id } => Tables { dlq: self.dlq.remove(dlq_id), ..self },
            Statement::FailEntry { dlq_id, last_retry_at } => self.with_entry(
                dlq_id,
                TransactionDlq {
                    permanently_failed: true,
                    last_retry_at: Some(last_retry_at),
                    ..self.dlq[dlq_id]
                },
            ),
            Statement::RescheduleEntry { dlq_id, retry_count, last_retry_at, next_retry_at } =>
                self.with_entry(
                dlq_id,
                TransactionDlq {
                    retry_count,
                    last_retry_at: Some(last_retry_at),
                    next_retry_at: Some(next_retry_at),
                    ..self.dlq[dlq_id]
                },
            ),
        }
    }
}

/// No statement moves a DLQ row away from its own identifier.
pub proof fn law_statement_keeps_rows_in_place(tables: Tables, statement: Statement)
    requires
        tables.wf(),
    ensures
        tables.after(statement).wf(),
{
}

/// The limit in the text of the statement that reads the due entries is `DUE_LIMIT`.
pub proof fn law_due_limit_in_sql(now: Timestamp)
    ensures
        ({
            let text = (Statement::SelectDue { now }).sql_text();
            let n = text.len() as int;
            &&& n > 9
            &&& text.subrange(n - 9, n - 2) == " LIMIT "@
            &&& decimal(text.subrange(n - 2, n)) == Some(DUE_LIMIT as int)
        }),
{
    let text = (Statement::SelectDue { now }).sql_text();
    let n = text.len() as int;
    reveal_strlit(
        "SELECT * FROM transaction_dlq WHERE permanently_failed = FALSE AND (next_retry_at IS NULL OR next_retry_at <= $1) ORDER BY moved_to_dlq_at ASC LIMIT 50",
    );
    reveal_strlit(" LIMIT ");
    assert(text.subrange(n - 9, n - 2) =~= " LIMIT "@);
    let digits = text.subrange(n - 2, n);
    assert(digits =~= seq!['5', '0']);
    assert(unsigned_part(digits) == digits);
    reveal_with_fuel(digits_value, 3);
    assert(digits.drop_last() =~= seq!['5']);
    assert(seq!['5'].drop_last() =~= Seq::<char>::empty());
}

/// The model of a row holds what the row holds.
pub proof fn law_row_model_is_faithful(row: TransactionDlq<String>)
    ensures
        row@ == (TransactionDlq {
            id: row.id,
            transaction_id: row.transaction_id,
            asset_code: row.asset_code@,
            error_reason: row.error_reason@,
            retry_count: row.retry_count,
            permanently_failed: row.permanently_failed,
            moved_to_dlq_at: row.moved_to_dlq_at,
            last_retry_at: row.last_retry_at,
            next_retry_at: row.next_retry_at,
        }),
{
}

/// What a statement says does not depend on the values that are bound to it: two statements
/// of the same kind have the same text, and as many parameters.
pub proof fn law_text_is_fixed(a: Statement, b: Statement)
    requires
        a is SelectAssetCode <==> b is SelectAssetCode,
        a is SelectTransactionId <==> b is SelectTransactionId,
        a is SelectDue <==> b is SelectDue,
        a is CompleteTransaction <==> b is CompleteTransaction,
        a is RequeueTransaction <==> b is RequeueTransaction,
        a is DeleteEntry <==> b is DeleteEntry,
        a is FailEntry <==> b is FailEntry,
    ensures
        a.sql_text() == b.sql_text(),
        a.param_values().len() == b.param_values().len(),
{
}

/// Every statement but the one that reads the due entries finds its row by the placeholder
/// with which its text ends, and that one is for its last parameter.
pub proof fn law_last_parameter_is_the_row(statement: Statement)
    requires
        !(statement is SelectDue),
    ensures
        ({
            let text = statement.sql_text();
            let n = text.len() as int;
            let params = statement.param_values();
            &&& 0 < params.len() < 10
            &&& params.last() is Id
            &&& n > 13
            &&& text.subrange(n - 13, n - 1) == "WHERE id = $"@
            &&& text[n - 1] as int == '0' as int + params.len()
        }),
{
    reveal_strlit("WHERE id = $");
    reveal_strlit("SELECT asset_code FROM transactions WHERE id = $1");
    reveal_strlit("SELECT transaction_id FROM transaction_dlq WHERE id = $1");
    reveal_strlit("UPDATE transactions SET status = 'completed', updated_at = NOW() WHERE id = $1");
    reveal_strlit("UPDATE transactions SET status = 'pending', updated_at = NOW() WHERE id = $1");
    reveal_strlit("DELETE FROM transaction_dlq WHERE id = $1");
    reveal_strlit("UPDATE transaction_dlq SET permanently_failed = TRUE, last_retry_at = $1 WHERE id = $2");
    reveal_strlit("UPDATE transaction_dlq SET retry_count = $1, last_retry_at = $2, next_retry_at = $3 WHERE id = $4");
    let text = statement.sql_text();
    assert(text.subrange(text.len() - 13, text.len() - 1) =~= "WHERE id = $"@);
}

/// A statement on a transaction changes the row whose identifier is bound to it, and no
/// other: a row that is neither pending nor completed is changed exactly if its identifier
/// is the parameter. The statement sets the status and keeps the asset code.
pub proof fn law_parameter_is_the_transaction(tables: Tables, statement: Statement, id: u128)
    requires
        statement is CompleteTransaction || statement is RequeueTransaction,
        tables.transactions.dom().contains(id),
        tables.transactions[id].status is Other,
    ensures
        ({
            let (before, after) = (tables.transactions[id], tables.after(statement).transactions[id]);
            &&& after != before <==> statement.param_values() == seq![Param::Id(id)]
            &&& after != before && statement is CompleteTransaction ==> after.status is Completed
            &&& after != before && statement is RequeueTransaction ==> after.status is Pending
            &&& after.asset_code == before.asset_code
            &&& tables.after(statement).transactions.dom() == tables.transactions.dom()
            &&& tables.after(statement).dlq == tables.dlq
        }),
{
    assert(statement.param_values()[0] is Id);
    assert(tables.after(statement).transactions.dom() =~= tables.transactions.dom());
    assert(seq![Param::Id(id)][0] == Param::Id(id));
    if statement.param_values()[0] == Param::Id(id) {
        assert(statement.param_values() =~= seq![Param::Id(id)]);
    }
}

/// The deletion takes away the entry whose identifier is bound to it, and no other.
pub proof fn law_parameter_is_the_deleted_entry(tables: Tables, statement: Statement, id: u128)
    requires
        statement is DeleteEntry,
        tables.dlq.dom().contains(id),
    ensures
        !tables.after(statement).dlq.dom().contains(id) <==> statement.param_values() == seq![
            Param::Id(id),
        ],
        tables.after(statement).dlq.dom().contains(id) ==> tables.after(statement).dlq[id]
            == tables.dlq[id],
        tables.after(statement).transactions == tables.transactions,
{
    assert(seq![Param::Id(id)][0] == Param::Id(id));
    if statement.param_values()[0] == Param::Id(id) {
        assert(statement.param_values() =~= seq![Param::Id(id)]);
    }
}

/// Giving up marks the entry whose identifier is bound last, and no other. The instant that
/// is bound first is what it then holds as its last retry; every other column stays.
pub proof fn law_parameters_are_the_failed_entry(tables: Tables, statement: Statement, id: u128)
    requires
        statement is FailEntry,
        tables.dlq.dom().contains(id),
        !tables.dlq[id].permanently_failed,
    ensures
        ({
            let params = statement.param_values();
            let (before, after) = (tables.dlq[id], tables.after(statement).dlq[id]);
            &&& params.len() == 2
            &&& after.permanently_failed <==> params[1] == Param::Id(id)
            &&& after.permanently_failed ==> {
                &&& after.last_retry_at matches Some(at)
                &&& params[0] == Param::At(at)
                &&& after.retry_count == before.retry_count
                &&& after.next_retry_at == before.next_retry_at
                &&& after.id == before.id
                &&& after.transaction_id == before.transaction_id
                &&& after.asset_code == before.asset_code
                &&& after.error_reason == before.error_reason
                &&& after.moved_to_dlq_at == before.moved_to_dlq_at
            }
            &&& !after.permanently_failed ==> after == before
            &&& tables.after(statement).dlq.dom() == tables.dlq.dom()
            &&& tables.after(statement).transactions == tables.transactions
        }),
{
    assert(tables.after(statement).dlq.dom() =~= tables.dlq.dom());
}

/// Recording a retry changes the entry whose identifier is bound last, and no other. The
/// count and the two instants that are bound before it are, in this order, what the entry
/// then holds as its count, its last retry and its next retry; every other column stays.
pub proof fn law_parameters_are_the_retried_entry(tables: Tables, statement: Statement, id: u128)
    requires
        statement is RescheduleEntry,
        tables.dlq.dom().contains(id),
        tables.dlq[id].next_retry_at is None,
    ensures
        ({
            let params = statement.param_values();
            let (before, after) = (tables.dlq[id], tables.after(statement).dlq[id]);
            &&& params.len() == 4
            &&& after.next_retry_at is Some <==> params[3] == Param::Id(id)
            &&& after.next_retry_at is Some ==> {
                &&& params[0] == Param::Count(after.retry_count)
                &&& after.last_retry_at matches Some(last)
                &&& params[1] == Param::At(last)
                &&& params[2] == Param::At(after.next_retry_at->0)
                &&& after.permanently_failed == before.permanently_failed
                &&& after.id == before.id
                &&& after.transaction_id == before.transaction_id
                &&& after.asset_code == before.asset_code
                &&& after.error_reason == before.error_reason
                &&& after.moved_to_dlq_at == before.moved_to_dlq_at
            }
            &&& after.next_retry_at is None ==> after == before
            &&& tables.after(statement).dlq.dom() == tables.dlq.dom()
            &&& tables.after(statement).transactions == tables.transactions
        }),
{
    assert(tables.after(statement).dlq.dom() =~= tables.dlq.dom());
}

/// Reading changes nothing.
pub proof fn law_reading_changes_nothing(tables: Tables, statement: Statement)
    requires
        statement is SelectAssetCode || statement is SelectTransactionId || statement is SelectDue,
    ensures
        tables.after(statement) == tables,
{
}

} // verus!
