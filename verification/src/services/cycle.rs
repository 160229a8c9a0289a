//! What a whole retry cycle does to the queue, and what becomes of an entry over time.
use super::dlq_queue::are_rows;
use super::run::{
    law_retry_gives_up, law_retry_reschedules, retried, retry_defined, run, Faults,
};
use super::store::{Status, Tables, TransactionDlq};
use super::transaction_processor::{
    backoff_delay, full_delay, retry_flow, retry_time, MAX_BACKOFF_EXPONENT,
};
use crate::time::{secs_in_range, Timestamp};
use vstd::arithmetic::power2::{
    lemma2_to64, lemma_pow2_pos, lemma_pow2_strictly_increases, lemma_pow2_unfold, pow2,
};
use vstd::prelude::*;

verus! {

/// What a cycle meets: its settings, the clock as each entry is taken up, and which of
/// each entry's requests fail.
pub struct CycleSetting<E> {
    pub notify: bool,
    pub max_retries: int,
    pub base_delay_secs: int,
    pub clock: spec_fn(nat) -> Timestamp,
    pub faults: spec_fn(nat) -> Faults<E>,
}

/// The tables once the first `n` entries have been retried.
pub open spec fn tables_after_entries<E>(
    tables: Tables,
    entries: Seq<TransactionDlq<Seq<char>>>,
    setting: CycleSetting<E>,
    n: nat,
) -> Tables
    decreases n,
{
    if n == 0 {
        tables
    } else {
        let k = (n - 1) as nat;
        let flow = retry_flow(
            entries[k as int],
            setting.notify,
            setting.max_retries,
            setting.base_delay_secs,
            (setting.clock)(k),
        );
        run(
            tables_after_entries(tables, entries, setting, k),
            flow,
            (setting.faults)(k),
            0,
        ).tables
    }
}

/// Whether neither of an entry's statements fails.
pub open spec fn untroubled<E>(setting: CycleSetting<E>, k: int) -> bool {
    ((setting.faults)(k as nat).at)(0) is None && ((setting.faults)(k as nat).at)(1) is None
}

/// The entry as its retry in the cycle leaves it, if nothing fails.
pub open spec fn cycled<E>(
    entries: Seq<TransactionDlq<Seq<char>>>,
    setting: CycleSetting<E>,
    k: int,
) -> TransactionDlq<Seq<char>> {
    retried(
        entries[k],
        setting.max_retries,
        setting.base_delay_secs,
        (setting.clock)(k as nat),
    )
}

/// A retry cycle takes up each entry on its own. Whatever fails for the others, an entry
/// whose own statements go through is retried or given up; one whose statements fail is
/// as before; and entries that the cycle did not read are untouched. A transaction is
/// changed only to pending, and only if an entry with retries left is about it.
pub proof fn law_cycle_retries_each<E>(
    tables: Tables,
    entries: Seq<TransactionDlq<Seq<char>>>,
    setting: CycleSetting<E>,
    n: nat,
)
    requires
        are_rows(tables, entries),
        n <= entries.len(),
        forall|k: int|
            0 <= k < n ==> retry_defined(
                #[trigger] entries[k],
                setting.max_retries,
                setting.base_delay_secs,
                (setting.clock)(k as nat),
            ),
    ensures
        ({
            let after = tables_after_entries(tables, entries, setting, n);
            &&& after.dlq.dom() == tables.dlq.dom()
            &&& after.transactions.dom() == tables.transactions.dom()
            &&& forall|k: int|
                0 <= k < n ==> {
                    let row = after.dlq[(#[trigger] entries[k]).id];
                    &&& row == entries[k] || row == cycled(entries, setting, k)
                    &&& untroubled(setting, k) ==> row == cycled(entries, setting, k)
                }
            &&& forall|k: int|
                0 <= k < n && untroubled(setting, k) && (#[trigger] entries[k]).retry_count + 1
                    <= setting.max_retries && tables.transactions.dom().contains(
                    entries[k].transaction_id,
                ) ==> after.transactions[entries[k].transaction_id].status == Status::Pending
            &&& forall|k: int|
                n <= k < entries.len() ==> after.dlq[(#[trigger] entries[k]).id] == entries[k]
            &&& forall|id: u128|
                tables.dlq.dom().contains(id) && (forall|k: int|
                    0 <= k < n ==> (#[trigger] entries[k]).id != id) ==> #[trigger] after.dlq[id]
                    == tables.dlq[id]
            &&& forall|id: u128|
                tables.transactions.dom().contains(id) && #[trigger] after.transactions[id]
                    != tables.transactions[id] ==> {
                    &&& after.transactions[id].status == Status::Pending
                    &&& after.transactions[id].asset_code == tables.transactions[id].asset_code
                    &&& exists|k: int|
                        0 <= k < n && (#[trigger] entries[k]).transaction_id == id
                            && entries[k].retry_count + 1 <= setting.max_retries
                }
        }),
    decreases n,
{
    if n > 0 {
        let k = (n - 1) as nat;
        law_cycle_retries_each(tables, entries, setting, k);
        let before = tables_after_entries(tables, entries, setting, k);
        let after = tables_after_entries(tables, entries, setting, n);
        let entry = entries[k as int];
        let now = (setting.clock)(k);
        let faults = (setting.faults)(k);
        assert(before.dlq[entry.id] == entry);
        assert(before.dlq.dom().contains(entry.id));
        if entry.retry_count + 1 > setting.max_retries {
            law_retry_gives_up(
                before,
                entry,
                setting.notify,
                setting.max_retries,
                setting.base_delay_secs,
                now,
                faults,
            );
            assert(after.transactions == before.transactions);
        } else {
            law_retry_reschedules(
                before,
                entry,
                setting.notify,
                setting.max_retries,
                setting.base_delay_secs,
                now,
                faults,
            );
        }
        assert(after.dlq.dom() =~= tables.dlq.dom());
        assert(after.transactions.dom() =~= tables.transactions.dom());
        assert(forall|id: u128| id != entry.id ==> after.dlq[id] == before.dlq[id]);
    }
}

/// With a positive base, every delay is positive.
proof fn lemma_full_delay_positive(retry_count: int, base_delay_secs: int)
    requires
        base_delay_secs > 0,
    ensures
        full_delay(retry_count, base_delay_secs) > 0,
{
    let factor = pow2(retry_count as nat) as int;
    lemma_pow2_pos(retry_count as nat);
    assert(base_delay_secs * factor > 0) by (nonlinear_arith)
        requires
            base_delay_secs > 0,
            factor > 0,
    ;
}

/// An entry that has been given up is never due again. One that has been retried with a
/// positive base delay is next due at the instant recorded for it, which lies after the
/// retry, and not before.
pub proof fn law_retried_waits(
    entry: TransactionDlq<Seq<char>>,
    max_retries: int,
    base_delay_secs: int,
    now: Timestamp,
    at: Timestamp,
)
    requires
        retry_defined(entry, max_retries, base_delay_secs, now),
        !entry.permanently_failed,
        base_delay_secs > 0,
    ensures
        ({
            let row = retried(entry, max_retries, base_delay_secs, now);
            let next = retry_time(now, entry.retry_count + 1, base_delay_secs);
            if entry.retry_count + 1 > max_retries {
                !row.due(at)
            } else {
                &&& row.due(at) <==> next.not_after(at)
                &&& now.not_after(next)
                &&& !row.due(now)
            }
        }),
{
    if entry.retry_count + 1 <= max_retries {
        lemma_full_delay_positive(entry.retry_count + 1, base_delay_secs);
        lemma_full_delay_positive(MAX_BACKOFF_EXPONENT as int, base_delay_secs);
    }
}

/// The entry after `n` cycles that took it up whenever it had not permanently failed, met
/// no failure, and could schedule the retry after theirs.
pub open spec fn after_cycles(
    entry: TransactionDlq<Seq<char>>,
    max_retries: int,
    base_delay_secs: int,
    clock: spec_fn(nat) -> Timestamp,
    n: nat,
) -> TransactionDlq<Seq<char>>
    decreases n,
{
    if n == 0 {
        entry
    } else {
        let previous = after_cycles(entry, max_retries, base_delay_secs, clock, (n - 1) as nat);
        if previous.permanently_failed {
            previous
        } else {
            retried(previous, max_retries, base_delay_secs, clock((n - 1) as nat))
        }
    }
}

/// The retries that an entry has left.
pub open spec fn retries_left(entry: TransactionDlq<Seq<char>>, max_retries: int) -> nat {
    (if entry.retry_count < max_retries {
        max_retries - entry.retry_count
    } else {
        0
    }) as nat
}

/// An entry is retried until its count of retries has reached `max_retries`, or not at all
/// where the count is there already. The next cycle marks it permanently failed, and from
/// then on it is left alone.
pub proof fn law_retries_are_bounded(
    entry: TransactionDlq<Seq<char>>,
    max_retries: int,
    base_delay_secs: int,
    clock: spec_fn(nat) -> Timestamp,
    n: nat,
)
    requires
        !entry.permanently_failed,
        entry.retry_count < i32::MAX,
        max_retries < i32::MAX,
    ensures
        ({
            let row = after_cycles(entry, max_retries, base_delay_secs, clock, n);
            let left = retries_left(entry, max_retries);
            if n <= left {
                !row.permanently_failed && row.retry_count == entry.retry_count + n
            } else {
                &&& row.permanently_failed
                &&& row.retry_count == entry.retry_count + left
                &&& row == after_cycles(entry, max_retries, base_delay_secs, clock, left + 1)
            }
        }),
    decreases n,
{
    if n > 0 {
        law_retries_are_bounded(entry, max_retries, base_delay_secs, clock, (n - 1) as nat);
    }
}

/// The delay is `base * 2^retry_count` wherever that leads to a representable instant, and
/// in any case up to the exponent `MAX_BACKOFF_EXPONENT`.
pub proof fn law_backoff_is_exponential(
    last_retry_at: Timestamp,
    retry_count: int,
    base_delay_secs: int,
)
    requires
        retry_count >= 0,
        retry_count <= MAX_BACKOFF_EXPONENT || secs_in_range(
            last_retry_at.shifted_secs(base_delay_secs * pow2(retry_count as nat)),
        ),
    ensures
        backoff_delay(last_retry_at, retry_count, base_delay_secs) == base_delay_secs * pow2(
            retry_count as nat,
        ),
{
}

/// Each further retry doubles the delay, as long as the doubled one leads to a
/// representable instant, and in any case up to the exponent `MAX_BACKOFF_EXPONENT`.
pub proof fn law_backoff_doubles(last_retry_at: Timestamp, retry_count: int, base_delay_secs: int)
    requires
        retry_count >= 0,
        last_retry_at.valid(),
        retry_count < MAX_BACKOFF_EXPONENT || secs_in_range(
            last_retry_at.shifted_secs(full_delay(retry_count + 1, base_delay_secs)),
        ),
    ensures
        backoff_delay(last_retry_at, retry_count + 1, base_delay_secs) == 2 * backoff_delay(
            last_retry_at,
            retry_count,
            base_delay_secs,
        ),
{
    lemma_pow2_unfold((retry_count + 1) as nat);
    let p = pow2(retry_count as nat) as int;
    assert(base_delay_secs * (2 * p) == 2 * (base_delay_secs * p)) by (nonlinear_arith);
}

/// Where `base * 2^retry_count` leads to an instant that is not representable, retries
/// beyond the exponent `MAX_BACKOFF_EXPONENT` are delayed as at that exponent.
pub proof fn law_backoff_falls_back(
    last_retry_at: Timestamp,
    retry_count: int,
    base_delay_secs: int,
)
    requires
        retry_count > MAX_BACKOFF_EXPONENT,
        !secs_in_range(last_retry_at.shifted_secs(full_delay(retry_count, base_delay_secs))),
    ensures
        backoff_delay(last_retry_at, retry_count, base_delay_secs) == backoff_delay(
            last_retry_at,
            MAX_BACKOFF_EXPONENT as int,
            base_delay_secs,
        ),
        backoff_delay(last_retry_at, retry_count, base_delay_secs) == base_delay_secs
            * 0x4000_0000,
{
    lemma2_to64();
}

/// With a base that is not negative, more retries never shorten the full delay.
proof fn lemma_full_delay_never_shrinks(fewer: int, more: int, base_delay_secs: int)
    requires
        0 <= fewer <= more,
        base_delay_secs >= 0,
    ensures
        0 <= full_delay(fewer, base_delay_secs) <= full_delay(more, base_delay_secs),
{
    if fewer < more {
        lemma_pow2_strictly_increases(fewer as nat, more as nat);
    }
    let (p, q) = (pow2(fewer as nat) as int, pow2(more as nat) as int);
    assert(0 <= base_delay_secs * p <= base_delay_secs * q) by (nonlinear_arith)
        requires
            0 <= p <= q,
            base_delay_secs >= 0,
    ;
}

/// With a base delay that is not negative, more retries never shorten the delay, but for
/// the step from a representable instant beyond the exponent `MAX_BACKOFF_EXPONENT` to one
/// that is not representable.
pub proof fn law_backoff_never_shrinks(
    last_retry_at: Timestamp,
    fewer: int,
    more: int,
    base_delay_secs: int,
)
    requires
        0 <= fewer <= more,
        base_delay_secs >= 0,
        last_retry_at.valid(),
        fewer <= MAX_BACKOFF_EXPONENT || secs_in_range(
            last_retry_at.shifted_secs(full_delay(more, base_delay_secs)),
        ) || !secs_in_range(last_retry_at.shifted_secs(full_delay(fewer, base_delay_secs))),
    ensures
        backoff_delay(last_retry_at, fewer, base_delay_secs) <= backoff_delay(
            last_retry_at,
            more,
            base_delay_secs,
        ),
{
    let cap = MAX_BACKOFF_EXPONENT as int;
    lemma_full_delay_never_shrinks(fewer, more, base_delay_secs);
    if fewer <= cap {
        lemma_full_delay_never_shrinks(fewer, cap, base_delay_secs);
    } else {
        lemma_full_delay_never_shrinks(cap, fewer, base_delay_secs);
    }
}

} // verus!
