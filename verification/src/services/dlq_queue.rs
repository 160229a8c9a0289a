//! Which entries of the dead-letter queue a retry cycle takes up.
use super::store::{Param, Statement, Tables, TransactionDlq, DUE_LIMIT};
use crate::time::Timestamp;
use vstd::prelude::*;
use vstd::set_lib::lemma_len_subset;

verus! {

impl<T> TransactionDlq<T> {
    /// An entry is due unless it has permanently failed or its next retry lies in the
    /// future. An entry that was never scheduled is due at once.
    pub open spec fn due(self, now: Timestamp) -> bool {
        &&& !self.permanently_failed
        &&& match self.next_retry_at {
            Some(at) => at.not_after(now),
            None => true,
        }
    }

    /// Whether the entry is due at `now`.
    pub fn is_due(&self, now: &Timestamp) -> (r: bool)
        ensures
            r == self.due(*now),
            r <==> !self.permanently_failed && (self.next_retry_at is None || {
                let at = self.next_retry_at->0;
                at.secs < now.secs || at.secs == now.secs && at.nanos <= now.nanos
            }),
    {
        !self.permanently_failed && match &self.next_retry_at {
            Some(at) => at.at_or_before(now),
            None => true,
        }
    }
}

/// Queue order of two positions: the entry that was moved to the queue first goes first,
/// and of two moved at the same instant the one at the lower position.
pub open spec fn precedes<T>(rows: Seq<TransactionDlq<T>>, i: int, j: int) -> bool {
    let (a, b) = (rows[i].moved_to_dlq_at, rows[j].moved_to_dlq_at);
    a.not_after(b) && (a != b || i < j)
}

/// `picked` holds the positions of the due rows in queue order: all of them, or the
/// first `DUE_LIMIT` where there are more.
pub open spec fn is_due_selection<T>(
    rows: Seq<TransactionDlq<T>>,
    now: Timestamp,
    picked: Seq<usize>,
) -> bool {
    &&& picked.len() <= DUE_LIMIT
    &&& forall|k: int|
        0 <= k < picked.len() ==> (#[trigger] picked[k]) < rows.len() && rows[picked[k] as int].due(
            now,
        )
    &&& forall|a: int, b: int|
        #![trigger picked[a], picked[b]]
        0 <= a < b < picked.len() ==> precedes(rows, picked[a] as int, picked[b] as int)
    &&& forall|i: int| #![trigger rows[i]]
        0 <= i < rows.len() && rows[i].due(now) && !picked.contains(i as usize) ==> {
            &&& picked.len() == DUE_LIMIT
            &&& forall|k: int| 0 <= k < picked.len() ==> precedes(rows, #[trigger] picked[k] as int, i)
        }
}

/// Queue order is transitive.
proof fn lemma_precedes_transitive<T>(rows: Seq<TransactionDlq<T>>, i: int, j: int, k: int)
    requires
        precedes(rows, i, j),
        precedes(rows, j, k),
    ensures
        precedes(rows, i, k),
{
}

/// A selection from the rows before the last one, extended by that last row: at its place
/// in queue order where it is due, with the selection cut off at `DUE_LIMIT`.
proof fn lemma_selection_step<T>(
    rows: Seq<TransactionDlq<T>>,
    now: Timestamp,
    before: Seq<usize>,
    p: int,
    after: Seq<usize>,
)
    requires
        0 < rows.len() <= usize::MAX,
        is_due_selection(rows.drop_last(), now, before),
        0 <= p <= before.len(),
        rows.last().due(now) ==> {
            &&& p > 0 ==> rows[before[p - 1] as int].moved_to_dlq_at.not_after(
                rows.last().moved_to_dlq_at,
            )
            &&& forall|k: int|
                p <= k < before.len() ==> precedes(
                    rows,
                    rows.len() - 1,
                    #[trigger] before[k] as int,
                )
        },
        after == if !rows.last().due(now) || p >= DUE_LIMIT {
            before
        } else if before.len() == DUE_LIMIT {
            before.insert(p, (rows.len() - 1) as usize).drop_last()
        } else {
            before.insert(p, (rows.len() - 1) as usize)
        },
    ensures
        is_due_selection(rows, now, after),
{
    let seen = rows.drop_last();
    let last = rows.len() - 1;
    assert(forall|k: int| 0 <= k < last ==> seen[k] == rows[k]);
    assert forall|a: int, b: int|
        #![trigger before[a], before[b]]
        0 <= a < b < before.len() implies precedes(rows, before[a] as int, before[b] as int) by {
        assert(precedes(seen, before[a] as int, before[b] as int));
    }
    // Every unpicked due row among the earlier ones follows every picked one.
    assert forall|i: int|
        #![trigger rows[i]]
        0 <= i < last && rows[i].due(now) && !before.contains(i as usize) implies before.len()
        == DUE_LIMIT && (forall|k: int|
        0 <= k < before.len() ==> precedes(rows, #[trigger] before[k] as int, i)) by {
        assert(seen[i] == rows[i]);
        assert forall|k: int| 0 <= k < before.len() implies precedes(
            rows,
            #[trigger] before[k] as int,
            i,
        ) by {
            assert(precedes(seen, before[k] as int, i));
        }
    }
    if rows.last().due(now) {
        // Everything before the insertion point precedes the last row.
        assert forall|k: int| 0 <= k < p implies precedes(rows, #[trigger] before[k] as int, last) by {
            assert(precedes(rows, before[p - 1] as int, last));
            if k < p - 1 {
                assert(precedes(rows, before[k] as int, before[p - 1] as int));
                lemma_precedes_transitive(rows, before[k] as int, before[p - 1] as int, last);
            }
        }
        if p < DUE_LIMIT {
            let full = before.insert(p, last as usize);
            assert forall|k: int| 0 <= k < full.len() implies (#[trigger] full[k]) < rows.len()
                && rows[full[k] as int].due(now) by {
                if k < p {
                    assert(full[k] == before[k]);
                } else if k > p {
                    assert(full[k] == before[k - 1]);
                }
            }
            assert forall|a: int, b: int|
                #![trigger full[a], full[b]]
                0 <= a < b < full.len() implies precedes(rows, full[a] as int, full[b] as int) by {
                let x = if a < p { before[a] } else if a == p { last as usize } else { before[a - 1] };
                let y = if b < p { before[b] } else if b == p { last as usize } else { before[b - 1] };
                assert(full[a] == x && full[b] == y);
            }
            assert forall|k: int| 0 <= k < after.len() implies after[k] == full[k] by {}
            assert forall|i: int|
                #![trigger rows[i]]
                0 <= i < rows.len() && rows[i].due(now) && !after.contains(i as usize) implies {
                &&& after.len() == DUE_LIMIT
                &&& forall|k: int|
                    0 <= k < after.len() ==> precedes(rows, #[trigger] after[k] as int, i)
            } by {
                if i == last {
                    assert(after[p] == i as usize);
                } else if before.contains(i as usize) {
                    let k0 = before.index_of(i as usize);
                    let k1 = if k0 < p { k0 } else { k0 + 1 };
                    assert(full[k1] == i as usize);
                    assert(k1 == full.len() - 1) by {
                        if k1 < after.len() {
                            assert(after[k1] == i as usize);
                        }
                    }
                    assert forall|k: int| 0 <= k < after.len() implies precedes(
                        rows,
                        #[trigger] after[k] as int,
                        i,
                    ) by {
                        assert(precedes(rows, full[k] as int, full[k1] as int));
                    }
                } else {
                    assert forall|k: int| 0 <= k < after.len() implies precedes(
                        rows,
                        #[trigger] after[k] as int,
                        i,
                    ) by {
                        if k < p {
                            assert(after[k] == before[k]);
                        } else if k > p {
                            assert(after[k] == before[k - 1]);
                        } else {
                            assert(precedes(rows, last, before[before.len() - 1] as int));
                            assert(precedes(rows, before[before.len() - 1] as int, i));
                            lemma_precedes_transitive(
                                rows,
                                last,
                                before[before.len() - 1] as int,
                                i,
                            );
                        }
                    }
                }
            }
        }
    }
}

/// Picks the entries that a retry cycle at `now` takes up, in the order in which it does.
pub fn select_due<T>(rows: &Vec<TransactionDlq<T>>, now: &Timestamp) -> (picked: Vec<usize>)
    ensures
        is_due_selection(rows@, *now, picked@),
        picked.len() <= 50,
        forall|k: int|
            0 <= k < picked.len() ==> (#[trigger] picked@[k]) < rows.len()
                && !rows[picked@[k] as int].permanently_failed,
        forall|a: int, b: int|
            #![trigger picked@[a], picked@[b]]
            0 <= a < b < picked.len() ==> {
                let (first, second) = (
                    rows[picked@[a] as int].moved_to_dlq_at,
                    rows[picked@[b] as int].moved_to_dlq_at,
                );
                &&& picked@[a] != picked@[b]
                &&& first.secs < second.secs || first.secs == second.secs && first.nanos
                    <= second.nanos
            },
        forall|i: int|
            #![trigger rows@[i]]
            0 <= i < rows.len() && !rows@[i].permanently_failed && (rows@[i].next_retry_at is None
                || rows@[i].next_retry_at->0.secs < now.secs || rows@[i].next_retry_at->0.secs
                == now.secs && rows@[i].next_retry_at->0.nanos <= now.nanos) && picked.len() < 50
                ==> picked@.contains(i as usize),
{
    let mut picked: Vec<usize> = Vec::new();
    let mut i: usize = 0;
    assert(rows@.take(0).len() == 0);
    while i < rows.len()
        invariant
            i <= rows.len(),
            is_due_selection(rows@.take(i as int), *now, picked@),
        decreases rows.len() - i,
    {
        let ghost before = picked@;
        let ghost next = rows@.take(i + 1);
        let ghost mut place: int = 0;
        assert(next.drop_last() =~= rows@.take(i as int));
        if rows[i].is_due(now) {
            let mut p: usize = picked.len();
            while p > 0 && !rows[picked[p - 1]].moved_to_dlq_at.at_or_before(
                &rows[i].moved_to_dlq_at,
            )
                invariant
                    p <= picked.len(),
                    i < rows.len(),
                    picked@ == before,
                    next == rows@.take(i + 1),
                    forall|k: int| 0 <= k < picked.len() ==> (#[trigger] picked@[k]) < i,
                    forall|k: int|
                        p <= k < picked.len() ==> precedes(next, i as int, #[trigger] picked@[k] as int),
                decreases p,
            {
                p = p - 1;
            }
            proof {
                place = p as int;
            }
            if p < DUE_LIMIT {
                picked.insert(p, i);
                if picked.len() > DUE_LIMIT {
                    picked.pop();
                }
            }
        }
        proof {
            lemma_selection_step(next, *now, before, place, picked@);
        }
        i = i + 1;
    }
    assert(rows@.take(rows.len() as int) =~= rows@);
    picked
}

/// Two selections that agree before position `k` cannot have `p[k]` go before `q[k]`.
proof fn lemma_no_earlier_pick<T>(
    rows: Seq<TransactionDlq<T>>,
    now: Timestamp,
    p: Seq<usize>,
    q: Seq<usize>,
    k: int,
)
    requires
        is_due_selection(rows, now, p),
        is_due_selection(rows, now, q),
        0 <= k < p.len(),
        k < q.len(),
        forall|m: int| 0 <= m < k ==> #[trigger] p[m] == q[m],
    ensures
        !precedes(rows, p[k] as int, q[k] as int),
{
    if precedes(rows, p[k] as int, q[k] as int) {
        if q.contains(p[k]) {
            let m = q.index_of(p[k]);
            if m < k {
                assert(p[m] == q[m]);
                assert(precedes(rows, p[m] as int, p[k] as int));
            } else if m > k {
                assert(precedes(rows, q[k] as int, q[m] as int));
            }
        } else {
            assert(rows[p[k] as int].due(now));
            assert(precedes(rows, q[k] as int, p[k] as int));
        }
    }
}

/// Two selections agree position by position.
proof fn lemma_same_pick<T>(
    rows: Seq<TransactionDlq<T>>,
    now: Timestamp,
    p: Seq<usize>,
    q: Seq<usize>,
    k: int,
)
    requires
        is_due_selection(rows, now, p),
        is_due_selection(rows, now, q),
        0 <= k < p.len(),
        k < q.len(),
    ensures
        p[k] == q[k],
    decreases k,
{
    assert forall|m: int| 0 <= m < k implies #[trigger] p[m] == q[m] by {
        lemma_same_pick(rows, now, p, q, m);
    }
    lemma_no_earlier_pick(rows, now, p, q, k);
    lemma_no_earlier_pick(rows, now, q, p, k);
}

/// No selection is shorter than another one.
proof fn lemma_no_shorter_selection<T>(
    rows: Seq<TransactionDlq<T>>,
    now: Timestamp,
    p: Seq<usize>,
    q: Seq<usize>,
)
    requires
        is_due_selection(rows, now, p),
        is_due_selection(rows, now, q),
    ensures
        p.len() >= q.len(),
{
    if p.len() < q.len() {
        let n = p.len() as int;
        assert(!p.contains(q[n])) by {
            if p.contains(q[n]) {
                let m = p.index_of(q[n]);
                lemma_same_pick(rows, now, p, q, m);
                assert(precedes(rows, q[m] as int, q[n] as int));
            }
        }
        assert(rows[q[n] as int].due(now));
    }
}

/// The rows and the instant determine the selection.
pub proof fn law_due_selection_is_unique<T>(
    rows: Seq<TransactionDlq<T>>,
    now: Timestamp,
    p: Seq<usize>,
    q: Seq<usize>,
)
    requires
        is_due_selection(rows, now, p),
        is_due_selection(rows, now, q),
    ensures
        p == q,
{
    lemma_no_shorter_selection(rows, now, p, q);
    lemma_no_shorter_selection(rows, now, q, p);
    assert forall|k: int| 0 <= k < p.len() implies p[k] == q[k] by {
        lemma_same_pick(rows, now, p, q, k);
    }
    assert(p =~= q);
}

/// `entries` are rows of the queue, none of them twice.
pub open spec fn are_rows(tables: Tables, entries: Seq<TransactionDlq<Seq<char>>>) -> bool {
    &&& forall|k: int|
        0 <= k < entries.len() ==> tables.dlq.dom().contains((#[trigger] entries[k]).id)
            && tables.dlq[entries[k].id] == entries[k]
    &&& forall|j: int, k: int|
        0 <= j < k < entries.len() ==> (#[trigger] entries[j]).id != (#[trigger] entries[k]).id
}

/// What reading the due entries at `now` answers: due rows, the earliest moved to the
/// queue first, all of them or `DUE_LIMIT` of them, none moved later than one left out.
pub open spec fn answers_due(
    tables: Tables,
    now: Timestamp,
    entries: Seq<TransactionDlq<Seq<char>>>,
) -> bool {
    &&& are_rows(tables, entries)
    &&& entries.len() <= DUE_LIMIT
    &&& forall|k: int| 0 <= k < entries.len() ==> (#[trigger] entries[k]).due(now)
    &&& forall|j: int, k: int|
        0 <= j < k < entries.len() ==> (#[trigger] entries[j]).moved_to_dlq_at.not_after(
            (#[trigger] entries[k]).moved_to_dlq_at,
        )
    &&& forall|id: u128| #[trigger]
        tables.dlq.dom().contains(id) && tables.dlq[id].due(now) ==> entries.contains(
            tables.dlq[id],
        ) || (entries.len() == DUE_LIMIT && forall|k: int|
            0 <= k < entries.len() ==> (#[trigger] entries[k]).moved_to_dlq_at.not_after(
                tables.dlq[id].moved_to_dlq_at,
            ))
}

impl Statement {
    /// The DLQ rows that a statement returns when run on the tables. Reading the due
    /// entries returns them; which of several entries moved to the queue at the same
    /// instant goes first, and which of them is left out at the limit, is open. No other
    /// statement returns DLQ rows.
    pub open spec fn returns_rows(
        self,
        tables: Tables,
        entries: Seq<TransactionDlq<Seq<char>>>,
    ) -> bool {
        match self {
            Statement::SelectDue { now } => answers_due(tables, now, entries),
            _ => entries.len() == 0,
        }
    }
}

/// Selecting the due entries from a list of all rows of the queue gives what reading them
/// answers.
pub proof fn law_selection_answers_due(
    tables: Tables,
    rows: Seq<TransactionDlq<Seq<char>>>,
    now: Timestamp,
    picked: Seq<usize>,
)
    requires
        are_rows(tables, rows),
        rows.len() <= usize::MAX,
        forall|id: u128| #[trigger]
            tables.dlq.dom().contains(id) ==> rows.contains(tables.dlq[id]),
        is_due_selection(rows, now, picked),
    ensures
        (Statement::SelectDue { now }).returns_rows(
            tables,
            picked.map_values(|i: usize| rows[i as int]),
        ),
{
    let entries = picked.map_values(|i: usize| rows[i as int]);
    assert forall|j: int, k: int| 0 <= j < k < entries.len() implies (#[trigger] entries[j]).id != (
    #[trigger] entries[k]).id by {
        assert(precedes(rows, picked[j] as int, picked[k] as int));
        assert(picked[j] != picked[k]);
        let (a, b) = if picked[j] < picked[k] {
            (picked[j] as int, picked[k] as int)
        } else {
            (picked[k] as int, picked[j] as int)
        };
        assert(rows[a].id != rows[b].id);
    }
    assert forall|j: int, k: int| 0 <= j < k < entries.len() implies (
    #[trigger] entries[j]).moved_to_dlq_at.not_after((#[trigger] entries[k]).moved_to_dlq_at) by {
        assert(precedes(rows, picked[j] as int, picked[k] as int));
    }
    assert forall|id: u128| #[trigger]
        tables.dlq.dom().contains(id) && tables.dlq[id].due(now) implies entries.contains(
        tables.dlq[id],
    ) || (entries.len() == DUE_LIMIT && forall|k: int|
        0 <= k < entries.len() ==> (#[trigger] entries[k]).moved_to_dlq_at.not_after(
            tables.dlq[id].moved_to_dlq_at,
        )) by {
        let i = rows.index_of(tables.dlq[id]);
        assert(rows[i] == tables.dlq[id]);
        if picked.contains(i as usize) {
            let k = picked.index_of(i as usize);
            assert(entries[k] == tables.dlq[id]);
        } else {
            assert forall|k: int| 0 <= k < entries.len() implies (
            #[trigger] entries[k]).moved_to_dlq_at.not_after(tables.dlq[id].moved_to_dlq_at) by {
                assert(precedes(rows, picked[k] as int, i));
            }
        }
    }
}

/// The identifiers of the entries that are due at `now`.
pub open spec fn due_ids(tables: Tables, now: Timestamp) -> Set<u128> {
    tables.dlq.dom().filter(|id: u128| tables.dlq[id].due(now))
}

/// Reading the due entries answers as many as are due, or `DUE_LIMIT` where there are more.
pub proof fn law_due_count(
    tables: Tables,
    now: Timestamp,
    entries: Seq<TransactionDlq<Seq<char>>>,
)
    requires
        tables.wf(),
        tables.dlq.dom().finite(),
        (Statement::SelectDue { now }).returns_rows(tables, entries),
    ensures
        entries.len() == if due_ids(tables, now).len() <= DUE_LIMIT {
            due_ids(tables, now).len()
        } else {
            DUE_LIMIT as nat
        },
{
    let ids = entries.map_values(|e: TransactionDlq<Seq<char>>| e.id);
    let due = due_ids(tables, now);
    assert(ids.no_duplicates()) by {
        assert forall|j: int, k: int|
            0 <= j < ids.len() && 0 <= k < ids.len() && j != k implies ids[j] != ids[k] by {
            let (a, b) = if j < k {
                (j, k)
            } else {
                (k, j)
            };
            assert(entries[a].id != entries[b].id);
        }
    }
    ids.unique_seq_to_set();
    assert(ids.to_set().subset_of(due)) by {
        assert forall|id: u128| ids.to_set().contains(id) implies due.contains(id) by {
            let k = ids.index_of(id);
            assert(entries[k].id == id);
        }
    }
    lemma_len_subset(due, tables.dlq.dom());
    lemma_len_subset(ids.to_set(), due);
    if entries.len() < DUE_LIMIT {
        assert(due.subset_of(ids.to_set())) by {
            assert forall|id: u128| due.contains(id) implies ids.to_set().contains(id) by {
                let k = entries.index_of(tables.dlq[id]);
                assert(entries[k] == tables.dlq[id]);
                assert(ids[k] == id);
            }
        }
        assert(due =~= ids.to_set());
    }
}

/// A row that has permanently failed is never due. Any other row without an instant for its
/// next retry is due at once, whatever else it holds; with one it is due from that instant
/// on, by second and then by nanosecond.
pub proof fn law_due<T>(row: TransactionDlq<T>, now: Timestamp)
    ensures
        row.permanently_failed ==> !row.due(now),
        !row.permanently_failed && row.next_retry_at is None ==> row.due(now),
        !row.permanently_failed ==> (row.next_retry_at matches Some(at) ==> {
            &&& at.secs < now.secs ==> row.due(now)
            &&& at.secs > now.secs ==> !row.due(now)
            &&& at.secs == now.secs ==> (row.due(now) <==> at.nanos <= now.nanos)
        }),
{
}

/// Whether a row is due rests on nothing but its failure and the instant of its next retry;
/// and a row that is due stays due.
pub proof fn law_due_depends_on<T>(
    row: TransactionDlq<T>,
    other: TransactionDlq<T>,
    now: Timestamp,
    later: Timestamp,
)
    ensures
        row.permanently_failed == other.permanently_failed && row.next_retry_at
            == other.next_retry_at ==> row.due(now) == other.due(now),
        row.due(now) && now.not_after(later) ==> row.due(later),
{
}

/// A selection that is not full has missed nothing: it holds every row that has not
/// permanently failed and was never scheduled, or whose instant has come.
pub proof fn law_selection_misses_nothing<T>(
    rows: Seq<TransactionDlq<T>>,
    now: Timestamp,
    picked: Seq<usize>,
    i: int,
)
    requires
        is_due_selection(rows, now, picked),
        0 <= i < rows.len() <= usize::MAX,
        picked.len() < 50,
    ensures
        picked.contains(i as usize) <==> !rows[i].permanently_failed && (
        rows[i].next_retry_at is None || {
            let at = rows[i].next_retry_at->0;
            at.secs < now.secs || at.secs == now.secs && at.nanos <= now.nanos
        }),
{
    if picked.contains(i as usize) {
        let k = picked.index_of(i as usize);
        assert(rows[picked[k] as int].due(now));
    }
}

/// A selection holds no row twice and no row that has permanently failed or waits for a
/// later instant. The earlier moved to the queue comes first, and of those moved at the same
/// instant the one listed first. A row that was never scheduled, or whose instant has come,
/// is left out only if the selection is full, and then every selected one was moved to the
/// queue no later than it.
pub proof fn law_selection<T>(
    rows: Seq<TransactionDlq<T>>,
    now: Timestamp,
    picked: Seq<usize>,
    a: int,
    b: int,
    i: int,
)
    requires
        is_due_selection(rows, now, picked),
        rows.len() <= usize::MAX,
        0 <= a < b < picked.len(),
        0 <= i < rows.len(),
    ensures
        picked.len() <= 50,
        picked[a] < rows.len(),
        picked[b] < rows.len(),
        picked[a] != picked[b],
        ({
            let (x, y) = (rows[picked[a] as int], rows[picked[b] as int]);
            let z = rows[i];
            let (first, second) = (x.moved_to_dlq_at, y.moved_to_dlq_at);
            &&& !x.permanently_failed
            &&& x.next_retry_at matches Some(at) ==> at.secs <= now.secs && (at.secs == now.secs
                ==> at.nanos <= now.nanos)
            &&& first.secs <= second.secs
            &&& first.secs == second.secs ==> first.nanos <= second.nanos
            &&& first.secs == second.secs && first.nanos == second.nanos ==> picked[a] < picked[b]
            &&& !z.permanently_failed && (z.next_retry_at is None || z.next_retry_at->0.secs
                < now.secs) && !picked.contains(i as usize) ==> {
                &&& picked.len() == 50
                &&& second.secs <= z.moved_to_dlq_at.secs
                &&& second.secs == z.moved_to_dlq_at.secs ==> second.nanos
                    <= z.moved_to_dlq_at.nanos
            }
        }),
{
    assert(precedes(rows, picked[a] as int, picked[b] as int));
    if rows[i].due(now) && !picked.contains(i as usize) {
        assert(precedes(rows, picked[b] as int, i));
    }
}

/// Reading the due entries goes by the instant that is bound to the statement. What comes
/// back are rows of the queue that have not permanently failed and do not wait for a later
/// instant; and if it is less than the limit, every such row comes back.
pub proof fn law_parameter_is_the_reading_instant(
    tables: Tables,
    statement: Statement,
    at: Timestamp,
    entries: Seq<TransactionDlq<Seq<char>>>,
    k: int,
    id: u128,
)
    requires
        statement is SelectDue,
        statement.param_values() == seq![Param::At(at)],
        statement.returns_rows(tables, entries),
    ensures
        entries.len() <= 50,
        0 <= k < entries.len() ==> {
            &&& tables.dlq.dom().contains(entries[k].id)
            &&& tables.dlq[entries[k].id] == entries[k]
            &&& !entries[k].permanently_failed
            &&& entries[k].next_retry_at matches Some(t) ==> t.secs < at.secs || t.secs == at.secs
                && t.nanos <= at.nanos
        },
        entries.len() < 50 && tables.dlq.dom().contains(id) && !tables.dlq[id].permanently_failed
            && (tables.dlq[id].next_retry_at is None || {
            let t = tables.dlq[id].next_retry_at->0;
            t.secs < at.secs || t.secs == at.secs && t.nanos <= at.nanos
        }) ==> entries.contains(tables.dlq[id]),
{
    assert(statement.param_values()[0] == Param::At(at));
    if 0 <= k < entries.len() {
        assert(entries[k].due(at));
    }
}

} // verus!
