//! What holds of a pass over the outbox, whatever the sends come to.

use vstd::prelude::*;

use crate::database::rows::{
    has_key, index_of_key, lemma_filter_keeps_row_of, lemma_filter_keeps_unique,
    lemma_index_of_key, lemma_update_keeps_row_of, row_of, without_key, Keyed,
};
use crate::database::table::lemma_filter_keeps_rows;
use crate::models::MessageQueueEntryView;
use crate::services::api_client::ApiErrorView;
use crate::services::storage_laws::lemma_read_queue_rows_each;
use crate::services::storage_service::{
    eligible_at, in_budget, lemma_filter_keeps_budgets, StorageErrorView, StoreView,
};
use crate::services::sync_service::{settled, settled_all};

verus! {

/// Every entry that is listed as pending mirrors its row of the queue: it
/// has the retry counters of that row and a retry left. No two listed
/// entries share an id.
pub proof fn lemma_pending_entries_mirror_rows(store: StoreView, now: int)
    requires
        store.wf(),
    ensures
        store.pending_queue(now) matches Ok(entries) ==> {
            &&& forall|k: int|
                0 <= k < entries.len() ==> (row_of(store.queue, (#[trigger] entries[k]).id) matches Some(
                    row,
                ) && row.retry_count == entries[k].retry_count && row.max_retries
                    == entries[k].max_retries && entries[k].retry_count < entries[k].max_retries)
            &&& forall|j: int, k: int|
                0 <= j < entries.len() && 0 <= k < entries.len() && (#[trigger] entries[j]).id == (
                #[trigger] entries[k]).id ==> j == k
        },
{
    let rows = store.queue.filter(eligible_at(now));
    lemma_filter_keeps_rows(store.queue, eligible_at(now));
    lemma_filter_keeps_unique(store.queue, eligible_at(now));
    lemma_read_queue_rows_each(rows, store.queue_attachments);
    if let Ok(entries) = store.pending_queue(now) {
        assert forall|k: int| 0 <= k < entries.len() implies (row_of(
            store.queue,
            (#[trigger] entries[k]).id,
        ) matches Some(row) && row.retry_count == entries[k].retry_count && row.max_retries
            == entries[k].max_retries && entries[k].retry_count < entries[k].max_retries) by {
            assert(store.queue.contains(rows[k]));
            let at = choose|at: int| 0 <= at < store.queue.len() && store.queue[at] == rows[k];
            assert(store.queue[at].key() == entries[k].id);
            lemma_index_of_key(store.queue, entries[k].id, at);
            assert(eligible_at(now)(rows[k]));
            assert(in_budget(store.queue[at]));
        }
        assert forall|j: int, k: int|
            0 <= j < entries.len() && 0 <= k < entries.len() && (#[trigger] entries[j]).id == (
            #[trigger] entries[k]).id implies j == k by {
            assert(rows[j].key() == rows[k].key());
        }
    }
}

/// Settling an entry that mirrors its row and has a retry left keeps the
/// store in order: no entry comes to use more retries than it was given.
pub proof fn lemma_settled_keeps_budgets(
    store: StoreView,
    entry: MessageQueueEntryView,
    failure: Option<ApiErrorView>,
    now: int,
)
    requires
        store.wf(),
        entry.retry_count < entry.max_retries,
        row_of(store.queue, entry.id) matches Some(row) ==> row.max_retries == entry.max_retries,
    ensures
        settled(store, entry, failure, now).wf(),
{
    let after = settled(store, entry, failure, now);
    match failure {
        None => {
            lemma_filter_keeps_unique(store.queue, without_key(entry.id));
            lemma_filter_keeps_budgets(store.queue, without_key(entry.id));
        },
        Some(error) => {
            if has_key(store.queue, entry.id) {
                let at = index_of_key(store.queue, entry.id);
                assert forall|i: int, j: int|
                    0 <= i < after.queue.len() && 0 <= j < after.queue.len()
                        && #[trigger] after.queue[i].key() == #[trigger] after.queue[j].key()
                        implies i == j by {
                    assert(after.queue[i].key() == store.queue[i].key());
                    assert(after.queue[j].key() == store.queue[j].key());
                }
                assert forall|i: int| 0 <= i < after.queue.len() implies in_budget(
                    #[trigger] after.queue[i],
                ) by {
                    if i != at {
                        assert(after.queue[i] == store.queue[i]);
                    } else {
                        assert(in_budget(store.queue[at]));
                    }
                }
            }
        },
    }
}

/// Settling an entry leaves the rows of the other entries as they are.
pub proof fn lemma_settled_keeps_other_rows(
    store: StoreView,
    entry: MessageQueueEntryView,
    failure: Option<ApiErrorView>,
    now: int,
    other: Seq<char>,
)
    requires
        store.wf(),
        other != entry.id,
    ensures
        row_of(settled(store, entry, failure, now).queue, other) == row_of(store.queue, other),
{
    let after = settled(store, entry, failure, now);
    match failure {
        None => {
            lemma_filter_keeps_row_of(store.queue, without_key(entry.id), other);
        },
        Some(error) => {
            if has_key(store.queue, entry.id) {
                let at = index_of_key(store.queue, entry.id);
                lemma_update_keeps_row_of(store.queue, at, after.queue[at], other);
            }
        },
    }
}

/// The store after the first `upto` pending entries were settled is in
/// order, and still holds the rows of the entries that are yet to be settled
/// as they were.
proof fn lemma_outbox_prefix_keeps_budgets(
    store: StoreView,
    now: int,
    pending: Seq<MessageQueueEntryView>,
    failures: Seq<Option<ApiErrorView>>,
    upto: int,
)
    requires
        store.wf(),
        store.pending_queue(now) == Ok::<Seq<MessageQueueEntryView>, StorageErrorView>(pending),
        failures.len() == pending.len(),
        0 <= upto <= pending.len(),
    ensures
        settled_all(store, pending.take(upto), failures.take(upto), now).wf(),
        forall|k: int|
            upto <= k < pending.len() ==> row_of(
                settled_all(store, pending.take(upto), failures.take(upto), now).queue,
                (#[trigger] pending[k]).id,
            ) == row_of(store.queue, pending[k].id),
    decreases upto,
{
    lemma_pending_entries_mirror_rows(store, now);
    if upto > 0 {
        lemma_outbox_prefix_keeps_budgets(store, now, pending, failures, upto - 1);
        let before = settled_all(store, pending.take(upto - 1), failures.take(upto - 1), now);
        let entry = pending[upto - 1];
        let failure = failures[upto - 1];
        assert(pending.take(upto).drop_last() =~= pending.take(upto - 1));
        assert(failures.take(upto).drop_last() =~= failures.take(upto - 1));
        assert(pending.take(upto).last() == entry);
        assert(failures.take(upto).last() == failure);
        let after = settled_all(store, pending.take(upto), failures.take(upto), now);
        assert(after == settled(before, entry, failure, now));
        assert(row_of(before.queue, entry.id) == row_of(store.queue, entry.id));
        assert forall|k: int| upto <= k < pending.len() implies row_of(
            after.queue,
            (#[trigger] pending[k]).id,
        ) == row_of(store.queue, pending[k].id) by {
            lemma_settled_keeps_other_rows(before, entry, failure, now, pending[k].id);
        }
        lemma_settled_keeps_budgets(before, entry, failure, now);
    }
}

/// A pass over the outbox keeps every entry within its budget of retries,
/// whatever the sends come to.
pub proof fn lemma_outbox_pass_keeps_budgets(
    store: StoreView,
    now: int,
    pending: Seq<MessageQueueEntryView>,
    failures: Seq<Option<ApiErrorView>>,
)
    requires
        store.wf(),
        store.pending_queue(now) == Ok::<Seq<MessageQueueEntryView>, StorageErrorView>(pending),
        failures.len() == pending.len(),
    ensures
        settled_all(store, pending, failures, now).wf(),
{
    lemma_outbox_prefix_keeps_budgets(store, now, pending, failures, pending.len() as int);
    assert(pending.take(pending.len() as int) =~= pending);
    assert(failures.take(pending.len() as int) =~= failures);
}

} // verus!
