//! What holds of the store, whatever it holds.

use vstd::prelude::*;

use crate::database::rows::{
    has_key, index_of_key, keys_unique, lemma_filter_keeps_row_of, lemma_filter_keeps_unique,
    lemma_index_of_key, lemma_key_held_once, not_owned_by, outlives, owned_by, parent_in,
    row_of, with_key, without_key, AttachmentRowView, ConversationRowView, Keyed,
    MessageRowView, Owned,
    QueueAttachmentRowView, QueueRowView,
};
use crate::database::table::{lemma_filter_all, lemma_filter_keeps_rows, lemma_filter_none};
use crate::models::message::is_json_object;
use crate::models::timestamp::representable;
use crate::models::{ConversationView, MessageQueueEntryView, MessageView};
use crate::services::row_mapping::{
    attachments_to_rows, conversation_to_row, lemma_attachments_round_trip,
    lemma_conversation_round_trip, lemma_message_round_trip, lemma_queue_entry_round_trip,
    lemma_queued_attachments_round_trip, message_to_row, queue_entry_to_row,
    queued_attachments_to_rows, row_to_message, row_to_queue_entry, rows_to_attachments,
    rows_to_queued_attachments,
};
use crate::services::storage_service::{
    counters_in_budget, eligible_at, in_budget, later, lemma_filter_keeps_budgets, read_queue_rows, rewrite_retry,
    upsert_conversation_row, upsert_message_row, upsert_queue_row, StorageErrorView, StoreView,
};

verus! {

/// Writing a message row keeps the keys unique and leaves a row with its
/// id; writing it once more changes nothing.
pub proof fn lemma_upsert_message_row_twice(rows: Seq<MessageRowView>, row: MessageRowView)
    requires
        keys_unique(rows),
    ensures
        keys_unique(upsert_message_row(rows, row)),
        has_key(upsert_message_row(rows, row), row.id),
        upsert_message_row(upsert_message_row(rows, row), row) == upsert_message_row(rows, row),
{
    let once = upsert_message_row(rows, row);
    if has_key(rows, row.id) {
        let at = index_of_key(rows, row.id);
        assert forall|i: int, j: int|
            0 <= i < once.len() && 0 <= j < once.len() && #[trigger] once[i].key()
                == #[trigger] once[j].key() implies i == j by {
            assert(once[i].key() == rows[i].key());
            assert(once[j].key() == rows[j].key());
        }
        assert(once[at].key() == row.id);
        lemma_index_of_key(once, row.id, at);
        assert(upsert_message_row(once, row) =~= once);
    } else {
        let at = rows.len() as int;
        assert forall|i: int, j: int|
            0 <= i < once.len() && 0 <= j < once.len() && #[trigger] once[i].key()
                == #[trigger] once[j].key() implies i == j by {
            if i < at {
                assert(rows[i].key() != row.id);
            }
            if j < at {
                assert(rows[j].key() != row.id);
            }
        }
        assert(once[at].key() == row.id);
        lemma_index_of_key(once, row.id, at);
        assert(upsert_message_row(once, row) =~= once);
    }
}

/// Replacing the rows that belong to `owner` by `children` leaves exactly
/// `children` as the rows of `owner`; replacing once more changes nothing.
pub proof fn lemma_replace_children<R: Owned>(rows: Seq<R>, owner: Seq<char>, children: Seq<R>)
    requires
        forall|i: int| 0 <= i < children.len() ==> (#[trigger] children[i]).owner() == owner,
    ensures
        (rows.filter(not_owned_by(owner)) + children).filter(owned_by(owner)) == children,
        (rows.filter(not_owned_by(owner)) + children).filter(not_owned_by(owner)) + children
            == rows.filter(not_owned_by(owner)) + children,
{
    let others = rows.filter(not_owned_by(owner));
    lemma_filter_keeps_rows(rows, not_owned_by(owner));
    assert forall|i: int| 0 <= i < others.len() implies !owned_by::<R>(owner)(
        #[trigger] others[i],
    ) by {
        assert(not_owned_by::<R>(owner)(others[i]));
    }
    assert forall|i: int| 0 <= i < others.len() implies not_owned_by::<R>(owner)(
        #[trigger] others[i],
    ) by {}
    assert forall|i: int| 0 <= i < children.len() implies owned_by::<R>(owner)(
        #[trigger] children[i],
    ) by {}
    assert forall|i: int| 0 <= i < children.len() implies !not_owned_by::<R>(owner)(
        #[trigger] children[i],
    ) by {}
    lemma_filter_none(others, owned_by(owner));
    lemma_filter_all(children, owned_by(owner));
    lemma_filter_all(others, not_owned_by(owner));
    lemma_filter_none(children, not_owned_by(owner));
    Seq::filter_distributes_over_add(others, children, owned_by(owner));
    Seq::filter_distributes_over_add(others, children, not_owned_by(owner));
    assert(Seq::<R>::empty() + children =~= children);
    assert(others + Seq::<R>::empty() =~= others);
}

/// Writing a message twice leaves the same message rows as writing it once,
/// among them exactly one with its id.
proof fn lemma_message_rows_written_twice(store: StoreView, message: MessageView)
    requires
        store.wf(),
    ensures
        ({
            let row = message_to_row(message);
            let children = attachments_to_rows(message.id, message.attachments);
            let once = store.with_message(row, children);
            let twice = once.with_message(row, children);
            &&& once.wf()
            &&& twice.messages == once.messages
            &&& twice.conversations == once.conversations
            &&& twice.queue == once.queue
            &&& twice.queue_attachments == once.queue_attachments
            &&& once.messages.filter(with_key(message.id)).len() == 1
            &&& has_key(once.messages, message.id)
        }),
{
    let row = message_to_row(message);
    lemma_upsert_message_row_twice(store.messages, row);
    lemma_key_held_once(upsert_message_row(store.messages, row), message.id);
}

/// Writing a message twice leaves the same attachment rows as writing it
/// once: its own, and those of the other messages.
proof fn lemma_attachment_rows_written_twice(store: StoreView, message: MessageView)
    ensures
        ({
            let row = message_to_row(message);
            let children = attachments_to_rows(message.id, message.attachments);
            let once = store.with_message(row, children);
            &&& once.with_message(row, children).attachments == once.attachments
            &&& once.attachments.filter(owned_by(message.id)) == children
        }),
{
    let row = message_to_row(message);
    let children = attachments_to_rows(message.id, message.attachments);
    let others = store.attachments.filter(not_owned_by(message.id));
    let once = store.with_message(row, children);
    let twice = once.with_message(row, children);
    assert(row.id == message.id);
    assert(once.attachments == others + children);
    assert(twice.attachments == (others + children).filter(not_owned_by(message.id)) + children);
    assert((others + children).filter(owned_by(message.id)) == children && (others
        + children).filter(not_owned_by(message.id)) + children == others + children) by {
        assert forall|i: int| 0 <= i < children.len() implies (#[trigger] children[i]).owner()
            == message.id by {}
        lemma_replace_children(store.attachments, message.id, children);
    }
}

/// Writing a message twice leaves what writing it once leaves: the second
/// write is taken and changes nothing; there is one row with the id, and
/// the attachments of the message and no others are those of that id.
pub proof fn lemma_upsert_message_idempotent(store: StoreView, message: MessageView)
    requires
        store.wf(),
    ensures
        ({
            let row = message_to_row(message);
            let children = attachments_to_rows(message.id, message.attachments);
            let once = store.with_message(row, children);
            &&& once.wf()
            &&& once.message_written(row, children) == Ok::<StoreView, StorageErrorView>(once)
            &&& once.messages.filter(with_key(message.id)).len() == 1
            &&& once.attachments.filter(owned_by(message.id)) == children
        }),
{
    let row = message_to_row(message);
    let children = attachments_to_rows(message.id, message.attachments);
    let once = store.with_message(row, children);
    let twice = once.with_message(row, children);
    lemma_message_rows_written_twice(store, message);
    lemma_attachment_rows_written_twice(store, message);
    assert(twice == once);
    assert(once.takes_message(row));
}

/// A message that was written is read back as it was written, with its
/// attachments in their order. Only the conversation is that of the record
/// which the message overwrote, where it overwrote one.
pub proof fn lemma_message_read_back(store: StoreView, message: MessageView)
    requires
        store.wf(),
        representable(message.timestamp),
        is_json_object(message.metadata),
    ensures
        store.with_message(
            message_to_row(message),
            attachments_to_rows(message.id, message.attachments),
        ).message(message.id) == Ok::<Option<MessageView>, StorageErrorView>(
            Some(
                MessageView {
                    conversation_id: if has_key(store.messages, message.id) {
                        store.messages[index_of_key(store.messages, message.id)].conversation_id
                    } else {
                        message.conversation_id
                    },
                    ..message
                },
            ),
        ),
{
    let row = message_to_row(message);
    let children = attachments_to_rows(message.id, message.attachments);
    let written = store.with_message(row, children);
    let kept = MessageView {
        conversation_id: if has_key(store.messages, message.id) {
            store.messages[index_of_key(store.messages, message.id)].conversation_id
        } else {
            message.conversation_id
        },
        ..message
    };
    assert(has_key(written.messages, message.id) && written.messages[index_of_key(
        written.messages,
        message.id,
    )] == message_to_row(kept)) by {
        lemma_upsert_message_row_twice(store.messages, row);
        let at = if has_key(store.messages, message.id) {
            index_of_key(store.messages, message.id)
        } else {
            store.messages.len() as int
        };
        assert(written.messages[at].key() == message.id);
        lemma_index_of_key(written.messages, message.id, at);
    }
    assert(row_to_message(message_to_row(kept)) == Ok::<MessageView, StorageErrorView>(
        MessageView { attachments: Seq::empty(), ..kept },
    )) by {
        lemma_message_round_trip(kept);
    }
    assert(rows_to_attachments(written.attachments.filter(owned_by(message.id)))
        == message.attachments) by {
        assert forall|i: int| 0 <= i < children.len() implies (#[trigger] children[i]).owner()
            == message.id by {}
        lemma_replace_children(store.attachments, message.id, children);
        lemma_attachments_round_trip(message.id, message.attachments);
    }
}

/// Writing a conversation row keeps the keys unique and leaves a row with
/// its id: the written row, but with the creation time of the row that it
/// overwrote, where it overwrote one, and with the later of the two update
/// times.
pub proof fn lemma_upsert_conversation_row(rows: Seq<ConversationRowView>, row: ConversationRowView)
    requires
        keys_unique(rows),
    ensures
        keys_unique(upsert_conversation_row(rows, row)),
        has_key(upsert_conversation_row(rows, row), row.id),
        upsert_conversation_row(rows, row)[index_of_key(upsert_conversation_row(rows, row), row.id)]
            == if has_key(rows, row.id) {
            ConversationRowView {
                created_at: rows[index_of_key(rows, row.id)].created_at,
                updated_at: later(rows[index_of_key(rows, row.id)].updated_at, row.updated_at),
                ..row
            }
        } else {
            row
        },
{
    let once = upsert_conversation_row(rows, row);
    let at = if has_key(rows, row.id) {
        index_of_key(rows, row.id)
    } else {
        rows.len() as int
    };
    assert forall|i: int, j: int|
        0 <= i < once.len() && 0 <= j < once.len() && #[trigger] once[i].key()
            == #[trigger] once[j].key() implies i == j by {
        if i < rows.len() {
            assert(once[i].key() == rows[i].key());
        }
        if j < rows.len() {
            assert(once[j].key() == rows[j].key());
        }
    }
    assert(once[at].key() == row.id);
    lemma_index_of_key(once, row.id, at);
}

/// The update time of a conversation never goes back: after a write, the
/// stored update time is no earlier than it was before, and no earlier than
/// the one that was written; there is still one row with the id.
pub proof fn lemma_updated_at_never_goes_back(
    rows: Seq<ConversationRowView>,
    row: ConversationRowView,
)
    requires
        keys_unique(rows),
    ensures
        ({
            let after = upsert_conversation_row(rows, row);
            &&& has_key(after, row.id)
            &&& after.filter(with_key(row.id)).len() == 1
            &&& after[index_of_key(after, row.id)].updated_at >= row.updated_at
            &&& has_key(rows, row.id) ==> after[index_of_key(after, row.id)].updated_at
                >= rows[index_of_key(rows, row.id)].updated_at
        }),
{
    lemma_upsert_conversation_row(rows, row);
    lemma_key_held_once(upsert_conversation_row(rows, row), row.id);
}

/// Writing a conversation twice leaves what writing it once leaves.
pub proof fn lemma_upsert_conversation_idempotent(store: StoreView, conversation: ConversationView)
    requires
        store.wf(),
    ensures
        ({
            let row = conversation_to_row(conversation);
            let once = store.with_conversation(row);
            once.with_conversation(row) == once
        }),
{
    let row = conversation_to_row(conversation);
    let once = upsert_conversation_row(store.conversations, row);
    lemma_upsert_conversation_row(store.conversations, row);
    assert(upsert_conversation_row(once, row) =~= once);
}

/// A conversation that was written is read back as it was written. Only
/// the creation time is that of the record which it overwrote, where it
/// overwrote one, and the update time is the later of the two.
pub proof fn lemma_conversation_read_back(store: StoreView, conversation: ConversationView)
    requires
        store.wf(),
        representable(conversation.created_at),
        representable(conversation.updated_at),
        has_key(store.conversations, conversation.id) ==> representable(
            store.conversations[index_of_key(store.conversations, conversation.id)].created_at as int,
        ) && representable(
            store.conversations[index_of_key(store.conversations, conversation.id)].updated_at as int,
        ),
    ensures
        store.with_conversation(conversation_to_row(conversation)).conversation(conversation.id)
            == Ok::<Option<ConversationView>, StorageErrorView>(
            Some(written_as(store.conversations, conversation)),
        ),
{
    let kept = written_as(store.conversations, conversation);
    lemma_upsert_conversation_row(store.conversations, conversation_to_row(conversation));
    lemma_conversation_round_trip(kept);
}

/// The conversation as the store holds it after it was written: the
/// conversation itself, but with the creation time of the record that it
/// overwrote, where it overwrote one, and with the later of the two update
/// times.
pub open spec fn written_as(rows: Seq<ConversationRowView>, conversation: ConversationView)
    -> ConversationView {
    if has_key(rows, conversation.id) {
        ConversationView {
            created_at: rows[index_of_key(rows, conversation.id)].created_at as int,
            updated_at: later(
                rows[index_of_key(rows, conversation.id)].updated_at,
                conversation.updated_at as i64,
            ) as int,
            ..conversation
        }
    } else {
        conversation
    }
}

/// Queueing an entry whose retry counters are in order keeps the counters
/// of every row in order.
pub proof fn lemma_enqueue_keeps_budgets(rows: Seq<QueueRowView>, row: QueueRowView)
    requires
        counters_in_budget(rows),
        in_budget(row),
    ensures
        counters_in_budget(upsert_queue_row(rows, row)),
{
    let once = upsert_queue_row(rows, row);
    assert forall|i: int| 0 <= i < once.len() implies in_budget(#[trigger] once[i]) by {
        if i < rows.len() && !(has_key(rows, row.id) && i == index_of_key(rows, row.id)) {
            assert(once[i] == rows[i]);
        }
    }
}

/// Noting a count of used retries that the entry was given keeps the
/// counters of every row in order.
pub proof fn lemma_retry_keeps_budgets(
    rows: Seq<QueueRowView>,
    id: Seq<char>,
    retry_count: i64,
    next_retry_at: Option<i64>,
    error_message: Option<Seq<char>>,
    processing_state: Seq<char>,
)
    requires
        counters_in_budget(rows),
        0 <= retry_count,
        has_key(rows, id) ==> retry_count <= rows[index_of_key(rows, id)].max_retries,
    ensures
        counters_in_budget(
            rewrite_retry(rows, id, retry_count, next_retry_at, error_message, processing_state),
        ),
{
    let after = rewrite_retry(
        rows,
        id,
        retry_count,
        next_retry_at,
        error_message,
        processing_state,
    );
    assert forall|i: int| 0 <= i < after.len() implies in_budget(#[trigger] after[i]) by {
        if !(has_key(rows, id) && i == index_of_key(rows, id)) {
            assert(after[i] == rows[i]);
        } else {
            assert(in_budget(rows[i]));
        }
    }
}

/// Where a list of queue rows is read, every row is read, and each entry is
/// the reading of the row at its place with the queued attachments of that
/// row.
pub proof fn lemma_read_queue_rows_each(
    rows: Seq<QueueRowView>,
    attachments: Seq<QueueAttachmentRowView>,
)
    ensures
        read_queue_rows(rows, attachments) matches Ok(entries) ==> {
            &&& entries.len() == rows.len()
            &&& forall|i: int|
                0 <= i < rows.len() ==> (row_to_queue_entry(#[trigger] rows[i]) matches Ok(entry)
                    && entries[i] == (MessageQueueEntryView {
                    attachments: rows_to_queued_attachments(
                        attachments.filter(owned_by(rows[i].id)),
                    ),
                    ..entry
                }))
        },
    decreases rows.len(),
{
    if rows.len() > 0 {
        let front = rows.drop_last();
        lemma_read_queue_rows_each(front, attachments);
        if let Ok(entries) = read_queue_rows(rows, attachments) {
            let before = read_queue_rows(front, attachments)->Ok_0;
            assert forall|i: int| 0 <= i < rows.len() implies row_to_queue_entry(
                #[trigger] rows[i],
            ) matches Ok(entry) && entries[i] == (MessageQueueEntryView {
                attachments: rows_to_queued_attachments(attachments.filter(owned_by(rows[i].id))),
                ..entry
            }) by {
                if i < front.len() {
                    assert(front[i] == rows[i]);
                    assert(entries[i] == before[i]);
                }
            }
        }
    }
}

/// Queue eligibility: every entry that is listed as pending at `now` has
/// retries left and is not barred beyond `now`, and is the reading of a row
/// of the queue.
pub proof fn lemma_pending_entries_are_eligible(store: StoreView, now: int)
    requires
        store.wf(),
    ensures
        store.pending_queue(now) matches Ok(entries) ==> forall|k: int|
            0 <= k < entries.len() ==> (#[trigger] entries[k]).can_retry(now) && has_key(
                store.queue,
                entries[k].id,
            ),
{
    let rows = store.queue.filter(eligible_at(now));
    lemma_filter_keeps_rows(store.queue, eligible_at(now));
    lemma_read_queue_rows_each(rows, store.queue_attachments);
    if let Ok(entries) = store.pending_queue(now) {
        assert forall|k: int| 0 <= k < entries.len() implies (#[trigger] entries[k]).can_retry(now)
            && has_key(store.queue, entries[k].id) by {
            assert(store.queue.contains(rows[k]));
            let at = choose|at: int| 0 <= at < store.queue.len() && store.queue[at] == rows[k];
            assert(store.queue[at].key() == entries[k].id);
            assert(eligible_at(now)(rows[k]));
            assert(in_budget(store.queue[at]));
        }
    }
}

/// Queue eligibility: an entry that has used up its retries is never listed
/// as pending, whatever the time and whatever it is barred until.
pub proof fn lemma_exhausted_entry_is_never_pending(store: StoreView, now: int, at: int)
    requires
        store.wf(),
        0 <= at < store.queue.len(),
        store.queue[at].retry_count >= store.queue[at].max_retries,
    ensures
        store.pending_queue(now) matches Ok(entries) ==> forall|k: int|
            0 <= k < entries.len() ==> (#[trigger] entries[k]).id != store.queue[at].id,
{
    let rows = store.queue.filter(eligible_at(now));
    lemma_filter_keeps_rows(store.queue, eligible_at(now));
    lemma_read_queue_rows_each(rows, store.queue_attachments);
    if let Ok(entries) = store.pending_queue(now) {
        assert forall|k: int| 0 <= k < entries.len() implies (#[trigger] entries[k]).id
            != store.queue[at].id by {
            assert(store.queue.contains(rows[k]));
            let held = choose|held: int|
                0 <= held < store.queue.len() && store.queue[held] == rows[k];
            assert(eligible_at(now)(rows[k]));
            if entries[k].id == store.queue[at].id {
                assert(store.queue[held].key() == store.queue[at].key());
            }
        }
    }
}

/// Queue eligibility: an entry with retries left that is barred until
/// `until` is not listed before `until`, and is listed from `until` on
/// wherever the pending rows can be read.
pub proof fn lemma_barred_entry_waits(store: StoreView, now: int, at: int, until: i64)
    requires
        store.wf(),
        0 <= at < store.queue.len(),
        store.queue[at].retry_count < store.queue[at].max_retries,
        store.queue[at].next_retry_at == Some(until),
    ensures
        store.pending_queue(now) matches Ok(entries) ==> ((exists|k: int|
            0 <= k < entries.len() && (#[trigger] entries[k]).id == store.queue[at].id) <==> until
            <= now),
{
    let rows = store.queue.filter(eligible_at(now));
    lemma_filter_keeps_rows(store.queue, eligible_at(now));
    lemma_read_queue_rows_each(rows, store.queue_attachments);
    if let Ok(entries) = store.pending_queue(now) {
        if until <= now {
            assert(eligible_at(now)(store.queue[at]));
            store.queue.lemma_filter_contains(eligible_at(now), at);
            let k = choose|k: int| 0 <= k < rows.len() && rows[k] == store.queue[at];
            assert(entries[k].id == store.queue[at].id);
        } else {
            assert forall|k: int| 0 <= k < entries.len() implies (#[trigger] entries[k]).id
                != store.queue[at].id by {
                assert(store.queue.contains(rows[k]));
                let held = choose|held: int|
                    0 <= held < store.queue.len() && store.queue[held] == rows[k];
                assert(eligible_at(now)(rows[k]));
                if entries[k].id == store.queue[at].id {
                    assert(store.queue[held].key() == store.queue[at].key());
                }
            }
        }
    }
}

/// Writing a queue row keeps the keys unique and leaves a row with its id;
/// writing it once more changes nothing.
pub proof fn lemma_upsert_queue_row_twice(rows: Seq<QueueRowView>, row: QueueRowView)
    requires
        keys_unique(rows),
    ensures
        keys_unique(upsert_queue_row(rows, row)),
        has_key(upsert_queue_row(rows, row), row.id),
        upsert_queue_row(upsert_queue_row(rows, row), row) == upsert_queue_row(rows, row),
{
    let once = upsert_queue_row(rows, row);
    let at = if has_key(rows, row.id) {
        index_of_key(rows, row.id)
    } else {
        rows.len() as int
    };
    assert forall|i: int, j: int|
        0 <= i < once.len() && 0 <= j < once.len() && #[trigger] once[i].key()
            == #[trigger] once[j].key() implies i == j by {
        if i < rows.len() {
            assert(once[i].key() == rows[i].key());
        }
        if j < rows.len() {
            assert(once[j].key() == rows[j].key());
        }
    }
    assert(once[at].key() == row.id);
    lemma_index_of_key(once, row.id, at);
    assert(upsert_queue_row(once, row) =~= once);
}

/// Queueing an entry twice leaves the same queue rows as queueing it once,
/// among them exactly one with its id, and keeps the store in order.
proof fn lemma_queue_rows_written_twice(store: StoreView, entry: MessageQueueEntryView)
    requires
        store.wf(),
        entry.within_budget(),
    ensures
        ({
            let row = queue_entry_to_row(entry);
            let children = queued_attachments_to_rows(entry.id, entry.attachments);
            let once = store.with_queue_entry(row, children);
            let twice = once.with_queue_entry(row, children);
            &&& once.wf()
            &&& twice.queue == once.queue
            &&& twice.conversations == once.conversations
            &&& twice.messages == once.messages
            &&& twice.attachments == once.attachments
            &&& once.queue.filter(with_key(entry.id)).len() == 1
            &&& has_key(once.queue, entry.id)
        }),
{
    let row = queue_entry_to_row(entry);
    let once = upsert_queue_row(store.queue, row);
    lemma_upsert_queue_row_twice(store.queue, row);
    lemma_key_held_once(once, entry.id);
    assert forall|i: int| 0 <= i < once.len() implies in_budget(#[trigger] once[i]) by {
        if i < store.queue.len() && !(has_key(store.queue, row.id) && i == index_of_key(
            store.queue,
            row.id,
        )) {
            assert(once[i] == store.queue[i]);
        }
    }
}

/// Queueing an entry twice leaves the same queued attachments as queueing
/// it once: its own, and those of the other entries.
proof fn lemma_queued_attachments_written_twice(store: StoreView, entry: MessageQueueEntryView)
    ensures
        ({
            let row = queue_entry_to_row(entry);
            let children = queued_attachments_to_rows(entry.id, entry.attachments);
            let once = store.with_queue_entry(row, children);
            &&& once.with_queue_entry(row, children).queue_attachments == once.queue_attachments
            &&& once.queue_attachments.filter(owned_by(entry.id)) == children
        }),
{
    let row = queue_entry_to_row(entry);
    let children = queued_attachments_to_rows(entry.id, entry.attachments);
    let others = store.queue_attachments.filter(not_owned_by(entry.id));
    let once = store.with_queue_entry(row, children);
    let twice = once.with_queue_entry(row, children);
    assert(row.id == entry.id);
    assert(once.queue_attachments == others + children);
    assert(twice.queue_attachments == (others + children).filter(not_owned_by(entry.id))
        + children);
    assert((others + children).filter(owned_by(entry.id)) == children && (others
        + children).filter(not_owned_by(entry.id)) + children == others + children) by {
        assert forall|i: int| 0 <= i < children.len() implies (#[trigger] children[i]).owner()
            == entry.id by {}
        lemma_replace_children(store.queue_attachments, entry.id, children);
    }
}

/// Queueing an entry twice leaves what queueing it once leaves: the second
/// write is taken and changes nothing; there is one row with the id, and
/// the queued attachments of the entry and no others are those of that id.
pub proof fn lemma_enqueue_idempotent(store: StoreView, entry: MessageQueueEntryView)
    requires
        store.wf(),
        entry.within_budget(),
    ensures
        ({
            let row = queue_entry_to_row(entry);
            let children = queued_attachments_to_rows(entry.id, entry.attachments);
            let once = store.with_queue_entry(row, children);
            &&& once.wf()
            &&& once.queue_entry_written(row, children) == Ok::<StoreView, StorageErrorView>(once)
            &&& once.queue.filter(with_key(entry.id)).len() == 1
            &&& once.queue_attachments.filter(owned_by(entry.id)) == children
        }),
{
    let row = queue_entry_to_row(entry);
    let children = queued_attachments_to_rows(entry.id, entry.attachments);
    let once = store.with_queue_entry(row, children);
    let twice = once.with_queue_entry(row, children);
    lemma_queue_rows_written_twice(store, entry);
    lemma_queued_attachments_written_twice(store, entry);
    assert(twice == once);
    assert(row.retry_count <= row.max_retries);
    assert(has_key(once.queue, row.id));
}

/// The entry as the queue holds it after it was queued: the entry itself,
/// but with the conversation and the creation time of the entry that it
/// overwrote, where it overwrote one.
pub open spec fn queued_as(rows: Seq<QueueRowView>, entry: MessageQueueEntryView)
    -> MessageQueueEntryView {
    if has_key(rows, entry.id) {
        MessageQueueEntryView {
            conversation_id: rows[index_of_key(rows, entry.id)].conversation_id,
            created_at: rows[index_of_key(rows, entry.id)].created_at as int,
            ..entry
        }
    } else {
        entry
    }
}

/// An entry that was queued and may be sent at `now` is listed as pending
/// at `now`, with its queued attachments in their order, wherever the
/// pending rows can be read.
pub proof fn lemma_enqueued_entry_is_pending(
    store: StoreView,
    entry: MessageQueueEntryView,
    now: int,
)
    requires
        store.wf(),
        entry.can_retry(now),
        representable(queued_as(store.queue, entry).created_at),
        entry.next_retry_at matches Some(at) ==> representable(at),
    ensures
        store.with_queue_entry(
            queue_entry_to_row(entry),
            queued_attachments_to_rows(entry.id, entry.attachments),
        ).pending_queue(now) matches Ok(entries) ==> exists|k: int|
            0 <= k < entries.len() && #[trigger] entries[k] == queued_as(store.queue, entry),
{
    let row = queue_entry_to_row(entry);
    let children = queued_attachments_to_rows(entry.id, entry.attachments);
    let after = store.with_queue_entry(row, children);
    let kept = queued_as(store.queue, entry);
    let held = queue_entry_to_row(kept);
    let at = if has_key(store.queue, entry.id) {
        index_of_key(store.queue, entry.id)
    } else {
        store.queue.len() as int
    };
    assert(0 <= at < after.queue.len() && after.queue[at] == held) by {
        lemma_upsert_queue_row_twice(store.queue, row);
    }
    assert(row_to_queue_entry(held) == Ok::<MessageQueueEntryView, StorageErrorView>(
        MessageQueueEntryView { attachments: Seq::empty(), ..kept },
    )) by {
        lemma_queue_entry_round_trip(kept);
    }
    assert(rows_to_queued_attachments(after.queue_attachments.filter(owned_by(entry.id)))
        == entry.attachments) by {
        assert forall|i: int| 0 <= i < children.len() implies (#[trigger] children[i]).owner()
            == entry.id by {}
        lemma_replace_children(store.queue_attachments, entry.id, children);
        lemma_queued_attachments_round_trip(entry.id, entry.attachments);
    }
    assert(eligible_at(now)(held));
    let rows = after.queue.filter(eligible_at(now));
    after.queue.lemma_filter_contains(eligible_at(now), at);
    let k = choose|k: int| 0 <= k < rows.len() && rows[k] == held;
    lemma_read_queue_rows_each(rows, after.queue_attachments);
    if let Ok(entries) = after.pending_queue(now) {
        assert(entries[k] == kept);
    }
}

/// An entry that was removed from the queue is gone for good: no row has
/// its id, so it is never listed as pending again.
pub proof fn lemma_deleted_entry_is_never_pending(store: StoreView, id: Seq<char>, now: int)
    requires
        store.wf(),
    ensures
        store.without_queue_entry(id).wf(),
        !has_key(store.without_queue_entry(id).queue, id),
        store.without_queue_entry(id).pending_queue(now) matches Ok(entries) ==> forall|k: int|
            0 <= k < entries.len() ==> (#[trigger] entries[k]).id != id,
{
    let after = store.without_queue_entry(id);
    lemma_filter_keeps_unique(store.queue, without_key(id));
    lemma_filter_keeps_budgets(store.queue, without_key(id));
    lemma_filter_keeps_rows(store.queue, without_key(id));
    assert forall|i: int| 0 <= i < after.queue.len() implies (#[trigger] after.queue[i]).key()
        != id by {
        assert(without_key::<QueueRowView>(id)(after.queue[i]));
    }
    lemma_pending_entries_are_eligible(after, now);
}

/// A conversation that was removed is gone with everything it owned: no
/// message and no queue entry of it is left, nor an attachment of one of
/// its messages; the other conversations stay as they are.
pub proof fn lemma_removed_conversation_is_gone(store: StoreView, id: Seq<char>)
    requires
        store.wf(),
    ensures
        store.without_conversation(id).wf(),
        store.without_conversation(id).conversation(id) == Ok::<
            Option<ConversationView>,
            StorageErrorView,
        >(None),
        forall|i: int|
            0 <= i < store.without_conversation(id).messages.len() ==> (
            #[trigger] store.without_conversation(id).messages[i]).conversation_id != id,
        forall|i: int|
            0 <= i < store.without_conversation(id).queue.len() ==> (
            #[trigger] store.without_conversation(id).queue[i]).conversation_id != id,
        forall|i: int|
            0 <= i < store.without_conversation(id).attachments.len() ==> !parent_in(
                store.messages,
                (#[trigger] store.without_conversation(id).attachments[i]).message_id,
                id,
            ),
        forall|i: int|
            0 <= i < store.without_conversation(id).queue_attachments.len() ==> !parent_in(
                store.queue,
                (#[trigger] store.without_conversation(id).queue_attachments[i]).queue_id,
                id,
            ),
        forall|other: Seq<char>|
            other != id ==> #[trigger] row_of(store.without_conversation(id).conversations, other)
                == row_of(store.conversations, other),
{
    let after = store.without_conversation(id);
    lemma_filter_keeps_unique(store.conversations, without_key(id));
    lemma_filter_keeps_unique(store.messages, not_owned_by(id));
    lemma_filter_keeps_unique(store.queue, not_owned_by(id));
    lemma_filter_keeps_budgets(store.queue, not_owned_by(id));
    lemma_filter_keeps_rows(store.conversations, without_key(id));
    lemma_filter_keeps_rows(store.messages, not_owned_by(id));
    lemma_filter_keeps_rows(store.queue, not_owned_by(id));
    lemma_filter_keeps_rows(store.attachments, outlives(store.messages, id));
    lemma_filter_keeps_rows(store.queue_attachments, outlives(store.queue, id));
    assert forall|i: int| 0 <= i < after.conversations.len() implies (
    #[trigger] after.conversations[i]).key() != id by {
        assert(without_key::<ConversationRowView>(id)(after.conversations[i]));
    }
    assert forall|i: int| 0 <= i < after.messages.len() implies (
    #[trigger] after.messages[i]).conversation_id != id by {
        assert(not_owned_by::<MessageRowView>(id)(after.messages[i]));
    }
    assert forall|i: int| 0 <= i < after.queue.len() implies (
    #[trigger] after.queue[i]).conversation_id != id by {
        assert(not_owned_by::<QueueRowView>(id)(after.queue[i]));
    }
    assert forall|i: int| 0 <= i < after.attachments.len() implies !parent_in(
        store.messages,
        (#[trigger] after.attachments[i]).message_id,
        id,
    ) by {
        assert(outlives::<AttachmentRowView, MessageRowView>(store.messages, id)(
            after.attachments[i],
        ));
    }
    assert forall|i: int| 0 <= i < after.queue_attachments.len() implies !parent_in(
        store.queue,
        (#[trigger] after.queue_attachments[i]).queue_id,
        id,
    ) by {
        assert(outlives::<QueueAttachmentRowView, QueueRowView>(store.queue, id)(
            after.queue_attachments[i],
        ));
    }
    assert forall|other: Seq<char>| other != id implies #[trigger] row_of(
        after.conversations,
        other,
    ) == row_of(store.conversations, other) by {
        lemma_filter_keeps_row_of(store.conversations, without_key(id), other);
    }
}

} // verus!
