//! The relational store: conversations, messages with their attachments, and
//! the outbox with its queued attachments.

use vstd::prelude::*;

use crate::database::rows::{
    has_key, index_of_key, keys_unique, lemma_filter_keeps_unique, lemma_index_of_key,
    not_owned_by, outlives, owned_by, parent_in, put_row, with_key, with_key_and_owner,
    without_key, AttachmentRow, AttachmentRowView, ConversationRow, ConversationRowView, Keyed,
    MessageRow, MessageRowView, QueueAttachmentRow, QueueAttachmentRowView, QueueRow,
    QueueRowView,
};
use crate::database::table::{
    copy_rows, find_row, keep_rows, lemma_filter_keeps_rows, store_at,
};
use crate::models::{
    Conversation, ConversationView, Message, MessageQueueEntry, MessageQueueEntryView,
    MessageView, ProcessingState, Timestamp,
};
use crate::services::row_mapping::{
    attachments_to_rows, conversation_row, conversation_to_row, encode_optional_timestamp,
    encode_timestamp, instant_to_column, map_row_to_conversation, map_row_to_message,
    map_row_to_queue_entry, map_rows_to_attachments, map_rows_to_queued_attachments,
    message_attachment_rows, message_row, message_to_row, queue_entry_row, queue_entry_to_row,
    queued_attachment_rows, queued_attachments_to_rows, row_to_conversation, row_to_message,
    row_to_queue_entry, rows_to_attachments, rows_to_queued_attachments,
};
use crate::text::{prefixed, str_eq};

verus! {

/// Why the store could not answer.
#[derive(Debug, PartialEq, Eq)]
pub enum StorageError {
    /// The database refused or could not be reached.
    Database(String),
    /// An enum column holds a tag that no variant has.
    InvalidEnum(String),
    /// A structured column does not hold what it should.
    Serialization(String),
    /// A timestamp column, named here, is outside the calendar.
    InvalidTimestamp(&'static str),
}

/// What a [`StorageError`] holds, as mathematical values.
pub enum StorageErrorView {
    Database(Seq<char>),
    InvalidEnum(Seq<char>),
    Serialization(Seq<char>),
    InvalidTimestamp(Seq<char>),
}

impl View for StorageError {
    type V = StorageErrorView;

    open spec fn view(&self) -> StorageErrorView {
        match self {
            StorageError::Database(message) => StorageErrorView::Database(message@),
            StorageError::InvalidEnum(message) => StorageErrorView::InvalidEnum(message@),
            StorageError::Serialization(message) => StorageErrorView::Serialization(message@),
            StorageError::InvalidTimestamp(field) => StorageErrorView::InvalidTimestamp(field@),
        }
    }
}

impl StorageErrorView {
    /// The error in words.
    pub open spec fn message(self) -> Seq<char> {
        match self {
            StorageErrorView::Database(message) => "database error: "@ + message,
            StorageErrorView::InvalidEnum(message) => "invalid enum value: "@ + message,
            StorageErrorView::Serialization(message) => "serialization error: "@ + message,
            StorageErrorView::InvalidTimestamp(field) => "invalid timestamp for "@ + field,
        }
    }
}

impl StorageError {
    /// The error in words.
    pub fn message(&self) -> (text: String)
        ensures
            text@ == self@.message(),
    {
        match self {
            StorageError::Database(message) => prefixed("database error: ", message.as_str()),
            StorageError::InvalidEnum(message) => prefixed(
                "invalid enum value: ",
                message.as_str(),
            ),
            StorageError::Serialization(message) => prefixed(
                "serialization error: ",
                message.as_str(),
            ),
            StorageError::InvalidTimestamp(field) => prefixed("invalid timestamp for ", field),
        }
    }
}

/// What an operation of the store returns.
pub type StorageResult<T> = Result<T, StorageError>;

/// A result of the store, as mathematical values.
pub open spec fn viewed<T: DeepView>(result: StorageResult<T>) -> Result<T::V, StorageErrorView> {
    match result {
        Ok(value) => Ok(value.deep_view()),
        Err(error) => Err(error@),
    }
}

/// The tables of the store, as mathematical values.
pub struct StoreView {
    pub conversations: Seq<ConversationRowView>,
    pub messages: Seq<MessageRowView>,
    pub attachments: Seq<AttachmentRowView>,
    pub queue: Seq<QueueRowView>,
    pub queue_attachments: Seq<QueueAttachmentRowView>,
}

/// The later of two times.
pub open spec fn later(a: i64, b: i64) -> i64 {
    if a >= b {
        a
    } else {
        b
    }
}

/// The table after a conversation row was written: a new id is appended; a
/// row with the same id is overwritten in place, but keeps its creation
/// time, and its update time never goes back: it becomes the later of the
/// stored and the written one.
pub open spec fn upsert_conversation_row(
    rows: Seq<ConversationRowView>,
    row: ConversationRowView,
) -> Seq<ConversationRowView> {
    if has_key(rows, row.id) {
        let i = index_of_key(rows, row.id);
        rows.update(
            i,
            ConversationRowView {
                created_at: rows[i].created_at,
                updated_at: later(rows[i].updated_at, row.updated_at),
                ..row
            },
        )
    } else {
        rows.push(row)
    }
}

/// The table after a message row was written: a row with the same id is
/// overwritten in place but for the conversation it belongs to, a new id is
/// appended.
pub open spec fn upsert_message_row(rows: Seq<MessageRowView>, row: MessageRowView) -> Seq<
    MessageRowView,
> {
    if has_key(rows, row.id) {
        let i = index_of_key(rows, row.id);
        rows.update(i, MessageRowView { conversation_id: rows[i].conversation_id, ..row })
    } else {
        rows.push(row)
    }
}

/// The table after a queue row was written: a row with the same id is
/// overwritten in place but for its conversation and its creation time, a
/// new id is appended.
pub open spec fn upsert_queue_row(rows: Seq<QueueRowView>, row: QueueRowView) -> Seq<
    QueueRowView,
> {
    if has_key(rows, row.id) {
        let i = index_of_key(rows, row.id);
        rows.update(
            i,
            QueueRowView {
                conversation_id: rows[i].conversation_id,
                created_at: rows[i].created_at,
                ..row
            },
        )
    } else {
        rows.push(row)
    }
}

/// The table after the retry bookkeeping of the entry `id` was rewritten;
/// without such an entry the table stays as it is.
pub open spec fn rewrite_retry(
    rows: Seq<QueueRowView>,
    id: Seq<char>,
    retry_count: i64,
    next_retry_at: Option<i64>,
    error_message: Option<Seq<char>>,
    processing_state: Seq<char>,
) -> Seq<QueueRowView> {
    if has_key(rows, id) {
        let i = index_of_key(rows, id);
        rows.update(
            i,
            QueueRowView {
                retry_count,
                next_retry_at,
                error_message,
                processing_state,
                ..rows[i]
            },
        )
    } else {
        rows
    }
}

/// Accepts the queue rows that may be sent at `now`, judged by their
/// columns: retries are left, and the time before which the entry must not
/// be retried is unset or has come.
pub open spec fn eligible_at(now: int) -> spec_fn(QueueRowView) -> bool {
    |row: QueueRowView|
        row.retry_count < row.max_retries && (row.next_retry_at matches Some(at) ==> at <= now)
}

/// The entries that queue rows are read as, each with its queued
/// attachments. The rows are read in order, and the first row that cannot
/// be read decides the error.
pub open spec fn read_queue_rows(
    rows: Seq<QueueRowView>,
    attachments: Seq<QueueAttachmentRowView>,
) -> Result<Seq<MessageQueueEntryView>, StorageErrorView>
    decreases rows.len(),
{
    if rows.len() == 0 {
        Ok(Seq::empty())
    } else {
        match read_queue_rows(rows.drop_last(), attachments) {
            Err(error) => Err(error),
            Ok(entries) => match row_to_queue_entry(rows.last()) {
                Err(error) => Err(error),
                Ok(entry) => Ok(
                    entries.push(
                        MessageQueueEntryView {
                            attachments: rows_to_queued_attachments(
                                attachments.filter(owned_by(rows.last().id)),
                            ),
                            ..entry
                        },
                    ),
                ),
            },
        }
    }
}

/// A row that cannot be read fails the reading of every list of rows that
/// goes on beyond it.
pub proof fn lemma_read_queue_rows_fails(
    rows: Seq<QueueRowView>,
    attachments: Seq<QueueAttachmentRowView>,
    upto: int,
)
    requires
        0 <= upto <= rows.len(),
        read_queue_rows(rows.take(upto), attachments) is Err,
    ensures
        read_queue_rows(rows, attachments) == read_queue_rows(rows.take(upto), attachments),
    decreases rows.len() - upto,
{
    if upto == rows.len() {
        assert(rows.take(upto) =~= rows);
    } else {
        assert(rows.drop_last().take(upto) =~= rows.take(upto));
        lemma_read_queue_rows_fails(rows.drop_last(), attachments, upto);
    }
}

/// The place at which a row last updated at `updated_at` enters a list that
/// runs from the newest row to the oldest: behind every row that is at least
/// as new.
pub open spec fn entry_point(sorted: Seq<ConversationRowView>, updated_at: i64) -> int
    decreases sorted.len(),
{
    if sorted.len() == 0 {
        0
    } else if sorted.last().updated_at >= updated_at {
        sorted.len() as int
    } else {
        entry_point(sorted.drop_last(), updated_at)
    }
}

/// The rows from the most recently updated to the least; rows updated at the
/// same second keep the order of the table.
pub open spec fn newest_first(rows: Seq<ConversationRowView>) -> Seq<ConversationRowView>
    decreases rows.len(),
{
    if rows.len() == 0 {
        rows
    } else {
        let sorted = newest_first(rows.drop_last());
        sorted.insert(entry_point(sorted, rows.last().updated_at), rows.last())
    }
}

/// Whether the rows run from the newest to the oldest.
pub open spec fn is_newest_first(rows: Seq<ConversationRowView>) -> bool {
    forall|i: int, j: int|
        0 <= i <= j < rows.len() ==> #[trigger] rows[i].updated_at >= #[trigger] rows[j].updated_at
}

/// The rows of a page: at most `limit` rows behind the first `offset` ones.
pub open spec fn page_of(rows: Seq<ConversationRowView>, limit: u32, offset: u32) -> Seq<
    ConversationRowView,
> {
    let first = if offset <= rows.len() {
        offset as int
    } else {
        rows.len() as int
    };
    let end = if first + limit <= rows.len() {
        first + limit
    } else {
        rows.len() as int
    };
    rows.subrange(first, end)
}

/// The conversations that rows are read as. The rows are read in order, and
/// the first row that cannot be read decides the error.
pub open spec fn read_conversation_rows(rows: Seq<ConversationRowView>) -> Result<
    Seq<ConversationView>,
    StorageErrorView,
>
    decreases rows.len(),
{
    if rows.len() == 0 {
        Ok(Seq::empty())
    } else {
        match read_conversation_rows(rows.drop_last()) {
            Err(error) => Err(error),
            Ok(conversations) => match row_to_conversation(rows.last()) {
                Err(error) => Err(error),
                Ok(conversation) => Ok(conversations.push(conversation)),
            },
        }
    }
}

/// A row that cannot be read fails the reading of every list of rows that
/// goes on beyond it.
pub proof fn lemma_read_conversation_rows_fails(rows: Seq<ConversationRowView>, upto: int)
    requires
        0 <= upto <= rows.len(),
        read_conversation_rows(rows.take(upto)) is Err,
    ensures
        read_conversation_rows(rows) == read_conversation_rows(rows.take(upto)),
    decreases rows.len() - upto,
{
    if upto == rows.len() {
        assert(rows.take(upto) =~= rows);
    } else {
        assert(rows.drop_last().take(upto) =~= rows.take(upto));
        lemma_read_conversation_rows_fails(rows.drop_last(), upto);
    }
}

/// The place at which a row enters lies within the list, every row before it
/// is at least as new, and every row from it on is older.
pub proof fn lemma_entry_point(sorted: Seq<ConversationRowView>, updated_at: i64)
    requires
        is_newest_first(sorted),
    ensures
        0 <= entry_point(sorted, updated_at) <= sorted.len(),
        forall|i: int|
            0 <= i < entry_point(sorted, updated_at) ==> #[trigger] sorted[i].updated_at
                >= updated_at,
        forall|i: int|
            entry_point(sorted, updated_at) <= i < sorted.len()
                ==> #[trigger] sorted[i].updated_at < updated_at,
    decreases sorted.len(),
{
    if sorted.len() > 0 && sorted.last().updated_at < updated_at {
        let front = sorted.drop_last();
        assert(is_newest_first(front)) by {
            assert forall|i: int, j: int| 0 <= i <= j < front.len() implies #[trigger] front[i].updated_at
                >= #[trigger] front[j].updated_at by {
                assert(sorted[i].updated_at >= sorted[j].updated_at);
            }
        }
        lemma_entry_point(front, updated_at);
        assert forall|i: int| 0 <= i < entry_point(sorted, updated_at) implies #[trigger] sorted[i].updated_at
            >= updated_at by {
            assert(front[i].updated_at >= updated_at);
        }
        assert forall|i: int|
            entry_point(sorted, updated_at) <= i < sorted.len() implies #[trigger] sorted[i].updated_at
            < updated_at by {
            if i < front.len() {
                assert(front[i].updated_at < updated_at);
            }
        }
    } else if sorted.len() > 0 {
        assert forall|i: int| 0 <= i < sorted.len() implies #[trigger] sorted[i].updated_at
            >= updated_at by {
            assert(sorted[i].updated_at >= sorted[sorted.len() - 1].updated_at);
        }
    }
}

/// Listing newest first orders the rows, and neither loses nor invents one.
pub proof fn lemma_newest_first(rows: Seq<ConversationRowView>)
    ensures
        is_newest_first(newest_first(rows)),
        newest_first(rows).len() == rows.len(),
        forall|row: ConversationRowView| newest_first(rows).contains(row) <==> rows.contains(row),
    decreases rows.len(),
{
    if rows.len() > 0 {
        let front = rows.drop_last();
        let last = rows.last();
        lemma_newest_first(front);
        let sorted = newest_first(front);
        lemma_entry_point(sorted, last.updated_at);
        let at = entry_point(sorted, last.updated_at);
        let out = sorted.insert(at, last);
        assert forall|i: int, j: int| 0 <= i <= j < out.len() implies #[trigger] out[i].updated_at
            >= #[trigger] out[j].updated_at by {
            if i != at && j != at {
                let a = if i < at {
                    i
                } else {
                    i - 1
                };
                let b = if j < at {
                    j
                } else {
                    j - 1
                };
                assert(sorted[a].updated_at >= sorted[b].updated_at);
            } else if i == at && j != at {
                assert(sorted[j - 1].updated_at < last.updated_at);
            } else if i != at {
                assert(sorted[i].updated_at >= last.updated_at);
            }
        }
        assert forall|row: ConversationRowView| out.contains(row) <==> rows.contains(row) by {
            if out.contains(row) {
                let k = choose|k: int| 0 <= k < out.len() && out[k] == row;
                if k == at {
                    assert(rows[rows.len() - 1] == row);
                } else {
                    let a = if k < at {
                        k
                    } else {
                        k - 1
                    };
                    assert(sorted[a] == row);
                    assert(sorted.contains(row));
                    assert(front.contains(row));
                    let f = choose|f: int| 0 <= f < front.len() && front[f] == row;
                    assert(rows[f] == row);
                }
            }
            if rows.contains(row) {
                let k = choose|k: int| 0 <= k < rows.len() && rows[k] == row;
                if k == rows.len() - 1 {
                    assert(out[at] == row);
                } else {
                    assert(front[k] == row);
                    assert(front.contains(row));
                    assert(sorted.contains(row));
                    let a = choose|a: int| 0 <= a < sorted.len() && sorted[a] == row;
                    if a < at {
                        assert(out[a] == row);
                    } else {
                        assert(out[a + 1] == row);
                    }
                }
            }
        }
    }
}

/// Whether a column value is a count: what a retry counter can hold.
pub open spec fn is_count(value: i64) -> bool {
    0 <= value <= u32::MAX
}

/// Whether the retry counters of a queue row are in order: both are counts,
/// and no more retries are used than were given.
pub open spec fn in_budget(row: QueueRowView) -> bool {
    &&& is_count(row.retry_count)
    &&& is_count(row.max_retries)
    &&& row.retry_count <= row.max_retries
}

/// Whether the retry counters of every queue row are in order.
pub open spec fn counters_in_budget(rows: Seq<QueueRowView>) -> bool {
    forall|i: int| 0 <= i < rows.len() ==> in_budget(#[trigger] rows[i])
}

/// Filtering keeps the retry counters in order.
pub proof fn lemma_filter_keeps_budgets(
    rows: Seq<QueueRowView>,
    wanted: spec_fn(QueueRowView) -> bool,
)
    requires
        counters_in_budget(rows),
    ensures
        counters_in_budget(rows.filter(wanted)),
{
    lemma_filter_keeps_rows(rows, wanted);
    let kept = rows.filter(wanted);
    assert forall|i: int| 0 <= i < kept.len() implies in_budget(#[trigger] kept[i]) by {
        assert(rows.contains(kept[i]));
        let k = choose|k: int| 0 <= k < rows.len() && rows[k] == kept[i];
        assert(in_budget(rows[k]));
    }
}

/// What the store says against a row whose parent does not exist.
pub open spec fn foreign_key_failure() -> StorageErrorView {
    StorageErrorView::Database("FOREIGN KEY constraint failed"@)
}

/// What the store says against retry counters that are out of order.
pub open spec fn budget_failure() -> StorageErrorView {
    StorageErrorView::Database("CHECK constraint failed: retry_count <= max_retries"@)
}

impl StoreView {
    /// Whether the store is in order: each keyed table holds every key once,
    /// and no queue entry has used more retries than it was given.
    pub open spec fn wf(self) -> bool {
        &&& keys_unique(self.conversations)
        &&& keys_unique(self.messages)
        &&& keys_unique(self.queue)
        &&& counters_in_budget(self.queue)
    }

    /// The store without any row.
    pub open spec fn empty() -> StoreView {
        StoreView {
            conversations: Seq::empty(),
            messages: Seq::empty(),
            attachments: Seq::empty(),
            queue: Seq::empty(),
            queue_attachments: Seq::empty(),
        }
    }

    /// The store after a conversation row was written.
    pub open spec fn with_conversation(self, row: ConversationRowView) -> StoreView {
        StoreView { conversations: upsert_conversation_row(self.conversations, row), ..self }
    }

    /// The store after the conversation `id` was removed, and with it its
    /// messages, their attachments, its queue entries and their queued
    /// attachments.
    pub open spec fn without_conversation(self, id: Seq<char>) -> StoreView {
        StoreView {
            conversations: self.conversations.filter(without_key(id)),
            messages: self.messages.filter(not_owned_by(id)),
            attachments: self.attachments.filter(outlives(self.messages, id)),
            queue: self.queue.filter(not_owned_by(id)),
            queue_attachments: self.queue_attachments.filter(outlives(self.queue, id)),
        }
    }

    /// The store after a message row was written together with the rows of
    /// its attachments, which replace whatever attachments the message had.
    pub open spec fn with_message(
        self,
        row: MessageRowView,
        attachments: Seq<AttachmentRowView>,
    ) -> StoreView {
        StoreView {
            messages: upsert_message_row(self.messages, row),
            attachments: self.attachments.filter(not_owned_by(row.id)) + attachments,
            ..self
        }
    }

    /// Whether a message row is taken: it overwrites a message, or the
    /// conversation that it names exists.
    pub open spec fn takes_message(self, row: MessageRowView) -> bool {
        has_key(self.messages, row.id) || has_key(self.conversations, row.conversation_id)
    }

    /// What writing a message row with the rows of its attachments gives:
    /// the store after the write, or the refusal of a new message whose
    /// conversation does not exist.
    pub open spec fn message_written(
        self,
        row: MessageRowView,
        attachments: Seq<AttachmentRowView>,
    ) -> Result<StoreView, StorageErrorView> {
        if self.takes_message(row) {
            Ok(self.with_message(row, attachments))
        } else {
            Err(foreign_key_failure())
        }
    }

    /// What writing a queue row with the rows of its queued attachments
    /// gives: the store after the write, or the refusal of an entry that has
    /// used more retries than it was given, or of a new entry whose
    /// conversation does not exist.
    pub open spec fn queue_entry_written(
        self,
        row: QueueRowView,
        attachments: Seq<QueueAttachmentRowView>,
    ) -> Result<StoreView, StorageErrorView> {
        if row.retry_count > row.max_retries {
            Err(budget_failure())
        } else if !has_key(self.queue, row.id) && !has_key(
            self.conversations,
            row.conversation_id,
        ) {
            Err(foreign_key_failure())
        } else {
            Ok(self.with_queue_entry(row, attachments))
        }
    }

    /// Whether the entry `id` can take `retry_count` as its count of used
    /// retries: there is no such entry, or it was given at least as many.
    pub open spec fn takes_retry(self, id: Seq<char>, retry_count: i64) -> bool {
        has_key(self.queue, id) ==> retry_count <= self.queue[index_of_key(self.queue, id)].max_retries
    }

    /// What rewriting the retry bookkeeping of the entry `id` gives: the
    /// store after the write, or the refusal of a count of used retries
    /// beyond what the entry was given.
    pub open spec fn retry_written(
        self,
        id: Seq<char>,
        retry_count: i64,
        next_retry_at: Option<i64>,
        error_message: Option<Seq<char>>,
        processing_state: Seq<char>,
    ) -> Result<StoreView, StorageErrorView> {
        if self.takes_retry(id, retry_count) {
            Ok(self.with_retry(id, retry_count, next_retry_at, error_message, processing_state))
        } else {
            Err(budget_failure())
        }
    }

    /// The store after a queue row was written together with the rows of its
    /// queued attachments, which replace whatever the entry had queued.
    pub open spec fn with_queue_entry(
        self,
        row: QueueRowView,
        attachments: Seq<QueueAttachmentRowView>,
    ) -> StoreView {
        StoreView {
            queue: upsert_queue_row(self.queue, row),
            queue_attachments: self.queue_attachments.filter(not_owned_by(row.id)) + attachments,
            ..self
        }
    }

    /// The store after the queue entry `id` was removed with its queued
    /// attachments.
    pub open spec fn without_queue_entry(self, id: Seq<char>) -> StoreView {
        StoreView {
            queue: self.queue.filter(without_key(id)),
            queue_attachments: self.queue_attachments.filter(not_owned_by(id)),
            ..self
        }
    }

    /// The store after the retry bookkeeping of the entry `id` was rewritten.
    pub open spec fn with_retry(
        self,
        id: Seq<char>,
        retry_count: i64,
        next_retry_at: Option<i64>,
        error_message: Option<Seq<char>>,
        processing_state: Seq<char>,
    ) -> StoreView {
        StoreView {
            queue: rewrite_retry(
                self.queue,
                id,
                retry_count,
                next_retry_at,
                error_message,
                processing_state,
            ),
            ..self
        }
    }

    /// What reading the message `id` gives: the message with its attachments
    /// in the order in which they were written.
    pub open spec fn message(self, id: Seq<char>) -> Result<Option<MessageView>, StorageErrorView> {
        if has_key(self.messages, id) {
            match row_to_message(self.messages[index_of_key(self.messages, id)]) {
                Ok(message) => Ok(
                    Some(
                        MessageView {
                            attachments: rows_to_attachments(self.attachments.filter(owned_by(id))),
                            ..message
                        },
                    ),
                ),
                Err(error) => Err(error),
            }
        } else {
            Ok(None)
        }
    }

    /// What listing the entries that may be sent at `now` gives.
    pub open spec fn pending_queue(self, now: int) -> Result<
        Seq<MessageQueueEntryView>,
        StorageErrorView,
    > {
        read_queue_rows(self.queue.filter(eligible_at(now)), self.queue_attachments)
    }

    /// What listing a page of conversations gives: the conversations from the
    /// most recently updated on, at most `limit` of them behind the first
    /// `offset` ones.
    pub open spec fn conversation_page(self, limit: u32, offset: u32) -> Result<
        Seq<ConversationView>,
        StorageErrorView,
    > {
        read_conversation_rows(page_of(newest_first(self.conversations), limit, offset))
    }

    /// What reading the conversation `id` gives.
    pub open spec fn conversation(self, id: Seq<char>) -> Result<
        Option<ConversationView>,
        StorageErrorView,
    > {
        if has_key(self.conversations, id) {
            match row_to_conversation(self.conversations[index_of_key(self.conversations, id)]) {
                Ok(conversation) => Ok(Some(conversation)),
                Err(error) => Err(error),
            }
        } else {
            Ok(None)
        }
    }
}

/// The relational store. Its tables keep their rows in the order in which
/// they were first written.
pub struct StorageService {
    conversations: Vec<ConversationRow>,
    messages: Vec<MessageRow>,
    attachments: Vec<AttachmentRow>,
    queue: Vec<QueueRow>,
    queue_attachments: Vec<QueueAttachmentRow>,
}

impl View for StorageService {
    type V = StoreView;

    closed spec fn view(&self) -> StoreView {
        StoreView {
            conversations: self.conversations.deep_view(),
            messages: self.messages.deep_view(),
            attachments: self.attachments.deep_view(),
            queue: self.queue.deep_view(),
            queue_attachments: self.queue_attachments.deep_view(),
        }
    }
}

impl Clone for StorageService {
    fn clone(&self) -> (copy: StorageService)
        ensures
            copy@ == self@,
    {
        proof {
            use_type_invariant(self);
        }
        StorageService {
            conversations: copy_rows(&self.conversations),
            messages: copy_rows(&self.messages),
            attachments: copy_rows(&self.attachments),
            queue: copy_rows(&self.queue),
            queue_attachments: copy_rows(&self.queue_attachments),
        }
    }
}

impl StorageService {
    /// The store is always in order.
    #[verifier::type_invariant]
    pub open spec fn in_order(self) -> bool {
        self@.wf()
    }

    /// A store without any row.
    pub fn new() -> (store: StorageService)
        ensures
            store@ == StoreView::empty(),
            store@.wf(),
    {
        let store = StorageService {
            conversations: Vec::new(),
            messages: Vec::new(),
            attachments: Vec::new(),
            queue: Vec::new(),
            queue_attachments: Vec::new(),
        };
        assert(store@.conversations =~= Seq::empty());
        assert(store@.messages =~= Seq::empty());
        assert(store@.attachments =~= Seq::empty());
        assert(store@.queue =~= Seq::empty());
        assert(store@.queue_attachments =~= Seq::empty());
        store
    }

    /// The rows of `conversations`, as they are to be persisted.
    pub fn conversation_rows(&self) -> (rows: &Vec<ConversationRow>)
        ensures
            rows.deep_view() == self@.conversations,
    {
        &self.conversations
    }

    /// The rows of `messages`, as they are to be persisted.
    pub fn message_rows(&self) -> (rows: &Vec<MessageRow>)
        ensures
            rows.deep_view() == self@.messages,
    {
        &self.messages
    }

    /// The rows of `message_attachments`, as they are to be persisted.
    pub fn attachment_rows(&self) -> (rows: &Vec<AttachmentRow>)
        ensures
            rows.deep_view() == self@.attachments,
    {
        &self.attachments
    }

    /// The rows of `message_queue`, as they are to be persisted.
    pub fn queue_rows(&self) -> (rows: &Vec<QueueRow>)
        ensures
            rows.deep_view() == self@.queue,
    {
        &self.queue
    }

    /// The rows of `message_queue_attachments`, as they are to be persisted.
    pub fn queue_attachment_rows(&self) -> (rows: &Vec<QueueAttachmentRow>)
        ensures
            rows.deep_view() == self@.queue_attachments,
    {
        &self.queue_attachments
    }

    /// Puts a row of `conversations` as it was persisted: it replaces the row
    /// with the same id, or is appended.
    pub fn restore_conversation_row(&mut self, row: ConversationRow)
        ensures
            final(self)@ == (StoreView {
                conversations: put_row(old(self)@.conversations, row@),
                ..old(self)@
            }),
            final(self)@.wf(),
    {
        proof {
            use_type_invariant(&*self);
        }
        let mut table: Vec<ConversationRow> = Vec::new();
        core::mem::swap(&mut table, &mut self.conversations);
        let same_id = |held: &ConversationRow| -> (hit: bool)
            ensures
                hit == (held@.id == row@.id),
            {
                held.id == row.id
            };
        let hit = find_row(&table, same_id, Ghost(with_key(row@.id)));
        store_at(&mut table, hit, row);
        self.conversations = table;
    }

    /// Puts a row of `messages` as it was persisted: it replaces the row
    /// with the same id, or is appended.
    pub fn restore_message_row(&mut self, row: MessageRow)
        ensures
            final(self)@ == (StoreView {
                messages: put_row(old(self)@.messages, row@),
                ..old(self)@
            }),
            final(self)@.wf(),
    {
        proof {
            use_type_invariant(&*self);
        }
        let mut table: Vec<MessageRow> = Vec::new();
        core::mem::swap(&mut table, &mut self.messages);
        let same_id = |held: &MessageRow| -> (hit: bool)
            ensures
                hit == (held@.id == row@.id),
            {
                held.id == row.id
            };
        let hit = find_row(&table, same_id, Ghost(with_key(row@.id)));
        store_at(&mut table, hit, row);
        self.messages = table;
    }

    /// Appends a row of `message_attachments` as it was persisted.
    pub fn restore_attachment_row(&mut self, row: AttachmentRow)
        ensures
            final(self)@ == (StoreView {
                attachments: old(self)@.attachments.push(row@),
                ..old(self)@
            }),
            final(self)@.wf(),
    {
        proof {
            use_type_invariant(&*self);
        }
        let mut table: Vec<AttachmentRow> = Vec::new();
        core::mem::swap(&mut table, &mut self.attachments);
        let ghost before = table.deep_view();
        table.push(row);
        assert(table.deep_view() =~= before.push(row@));
        self.attachments = table;
    }

    /// Puts a row of `message_queue` as it was persisted: it replaces the
    /// row with the same id, or is appended. A row whose retry counters are
    /// out of order is not taken.
    pub fn restore_queue_row(&mut self, row: QueueRow) -> (taken: bool)
        ensures
            taken == in_budget(row@),
            final(self)@ == if taken {
                StoreView { queue: put_row(old(self)@.queue, row@), ..old(self)@ }
            } else {
                old(self)@
            },
            final(self)@.wf(),
    {
        proof {
            use_type_invariant(&*self);
        }
        if row.retry_count < 0 || row.max_retries > 0xffff_ffff || row.retry_count
            > row.max_retries {
            return false;
        }
        let mut table: Vec<QueueRow> = Vec::new();
        core::mem::swap(&mut table, &mut self.queue);
        let ghost before = table.deep_view();
        let same_id = |held: &QueueRow| -> (hit: bool)
            ensures
                hit == (held@.id == row@.id),
            {
                held.id == row.id
            };
        let ghost written = row@;
        let hit = find_row(&table, same_id, Ghost(with_key(row@.id)));
        store_at(&mut table, hit, row);
        let ghost after = table.deep_view();
        assert forall|i: int| 0 <= i < after.len() implies in_budget(#[trigger] after[i]) by {
            if has_key(before, written.key()) {
                if i != index_of_key(before, written.key()) {
                    assert(after[i] == before[i]);
                }
            } else if i < before.len() {
                assert(after[i] == before[i]);
            }
        }
        self.queue = table;
        true
    }

    /// Appends a row of `message_queue_attachments` as it was persisted.
    pub fn restore_queue_attachment_row(&mut self, row: QueueAttachmentRow)
        ensures
            final(self)@ == (StoreView {
                queue_attachments: old(self)@.queue_attachments.push(row@),
                ..old(self)@
            }),
            final(self)@.wf(),
    {
        proof {
            use_type_invariant(&*self);
        }
        let mut table: Vec<QueueAttachmentRow> = Vec::new();
        core::mem::swap(&mut table, &mut self.queue_attachments);
        let ghost before = table.deep_view();
        table.push(row);
        assert(table.deep_view() =~= before.push(row@));
        self.queue_attachments = table;
    }

    /// Writes a conversation: inserts it, or overwrites the one with the same
    /// id. The creation time of a stored conversation stays, and its update
    /// time never goes back: it becomes the later of the stored and the
    /// written one.
    pub fn upsert_conversation(&mut self, conversation: &Conversation) -> (done: StorageResult<()>)
        ensures
            done is Ok,
            final(self)@ == old(self)@.with_conversation(conversation_to_row(conversation@)),
            final(self)@.wf(),
    {
        proof {
            use_type_invariant(&*self);
        }
        let row = conversation_row(conversation);
        let mut table: Vec<ConversationRow> = Vec::new();
        core::mem::swap(&mut table, &mut self.conversations);
        let ghost before = table.deep_view();
        let same_id = |held: &ConversationRow| -> (hit: bool)
            ensures
                hit == (held@.id == row@.id),
            {
                held.id == row.id
            };
        let found = find_row(&table, same_id, Ghost(with_key(row@.id)));
        match found {
            Some(i) => {
                let updated_at: i64 = if table[i].updated_at >= row.updated_at {
                    table[i].updated_at
                } else {
                    row.updated_at
                };
                let merged = ConversationRow {
                    created_at: table[i].created_at,
                    updated_at,
                    ..row
                };
                proof {
                    lemma_index_of_key(before, row@.id, i as int);
                }
                table.set(i, merged);
                assert(table.deep_view() =~= upsert_conversation_row(before, row@));
            },
            None => {
                table.push(row);
                assert(table.deep_view() =~= upsert_conversation_row(before, row@));
            },
        }
        self.conversations = table;
        Ok(())
    }

    /// Reads the conversation `conversation_id`, or `None` where there is
    /// none.
    pub fn get_conversation(&self, conversation_id: &str) -> (read: StorageResult<
        Option<Conversation>,
    >)
        ensures
            viewed(read) == self@.conversation(conversation_id@),
    {
        proof {
            use_type_invariant(self);
        }
        let same_id = |held: &ConversationRow| -> (hit: bool)
            ensures
                hit == (held@.id == conversation_id@),
            {
                str_eq(held.id.as_str(), conversation_id)
            };
        let found = find_row(&self.conversations, same_id, Ghost(with_key(conversation_id@)));
        match found {
            Some(i) => {
                proof {
                    lemma_index_of_key(self.conversations.deep_view(), conversation_id@, i as int);
                }
                let conversation = map_row_to_conversation(&self.conversations[i])?;
                Ok(Some(conversation))
            },
            None => Ok(None),
        }
    }

    /// Lists a page of conversations, the most recently updated first.
    pub fn list_conversations(&self, limit: u32, offset: u32) -> (listed: StorageResult<
        Vec<Conversation>,
    >)
        ensures
            viewed(listed) == self@.conversation_page(limit, offset),
    {
        let sorted = sort_newest_first(&self.conversations);
        let ghost page = page_of(sorted.deep_view(), limit, offset);
        let first: usize = if (offset as usize) <= sorted.len() {
            offset as usize
        } else {
            sorted.len()
        };
        let end: usize = if (limit as usize) <= sorted.len() - first {
            first + limit as usize
        } else {
            sorted.len()
        };
        let mut conversations: Vec<Conversation> = Vec::new();
        let mut i: usize = first;
        assert(page.take(0) =~= Seq::empty());
        assert(conversations.deep_view() =~= Seq::empty());
        while i < end
            invariant
                first <= i <= end <= sorted.len(),
                page == sorted.deep_view().subrange(first as int, end as int),
                page == page_of(newest_first(self@.conversations), limit, offset),
                read_conversation_rows(page.take(i - first)) == Ok::<
                    Seq<ConversationView>,
                    StorageErrorView,
                >(conversations.deep_view()),
            decreases end - i,
        {
            let ghost read_so_far = conversations.deep_view();
            proof {
                assert(page.take(i - first + 1).drop_last() =~= page.take(i - first));
                assert(page.take(i - first + 1).last() == sorted.deep_view()[i as int]);
            }
            let conversation = match map_row_to_conversation(&sorted[i]) {
                Ok(conversation) => conversation,
                Err(error) => {
                    proof {
                        assert(row_to_conversation(page.take(i - first + 1).last()) is Err);
                        assert(read_conversation_rows(page.take(i - first + 1)) is Err);
                        lemma_read_conversation_rows_fails(page, i - first + 1);
                    }
                    return Err(error);
                },
            };
            conversations.push(conversation);
            assert(conversations.deep_view() =~= read_so_far.push(conversation@));
            i += 1;
        }
        assert(page.take(end - first) =~= page);
        Ok(conversations)
    }

    /// Removes the conversation `conversation_id` and, with it, its messages,
    /// their attachments, its queue entries and their queued attachments.
    pub fn remove_conversation(&mut self, conversation_id: &str) -> (done: StorageResult<()>)
        ensures
            done is Ok,
            final(self)@ == old(self)@.without_conversation(conversation_id@),
            final(self)@.wf(),
    {
        proof {
            use_type_invariant(&*self);
            lemma_filter_keeps_unique(self@.conversations, without_key(conversation_id@));
            lemma_filter_keeps_unique(self@.messages, not_owned_by(conversation_id@));
            lemma_filter_keeps_unique(self@.queue, not_owned_by(conversation_id@));
            lemma_filter_keeps_budgets(self@.queue, not_owned_by(conversation_id@));
        }
        let other_id = |held: &ConversationRow| -> (kept: bool)
            ensures
                kept == (held@.id != conversation_id@),
            {
                !str_eq(held.id.as_str(), conversation_id)
            };
        let conversations = keep_rows(
            &self.conversations,
            other_id,
            Ghost(without_key(conversation_id@)),
        );
        let of_other = |held: &MessageRow| -> (kept: bool)
            ensures
                kept == (held@.conversation_id != conversation_id@),
            {
                !str_eq(held.conversation_id.as_str(), conversation_id)
            };
        let messages = keep_rows(&self.messages, of_other, Ghost(not_owned_by(conversation_id@)));
        let parent_stays = |held: &AttachmentRow| -> (kept: bool)
            ensures
                kept == !parent_in(
                    self.messages.deep_view(),
                    held@.message_id,
                    conversation_id@,
                ),
            {
                !message_in_conversation(&self.messages, held.message_id.as_str(), conversation_id)
            };
        let attachments = keep_rows(
            &self.attachments,
            parent_stays,
            Ghost(outlives(self.messages.deep_view(), conversation_id@)),
        );
        let queued_for_other = |held: &QueueRow| -> (kept: bool)
            ensures
                kept == (held@.conversation_id != conversation_id@),
            {
                !str_eq(held.conversation_id.as_str(), conversation_id)
            };
        let queue = keep_rows(&self.queue, queued_for_other, Ghost(not_owned_by(conversation_id@)));
        let entry_stays = |held: &QueueAttachmentRow| -> (kept: bool)
            ensures
                kept == !parent_in(self.queue.deep_view(), held@.queue_id, conversation_id@),
            {
                !entry_in_conversation(&self.queue, held.queue_id.as_str(), conversation_id)
            };
        let queue_attachments = keep_rows(
            &self.queue_attachments,
            entry_stays,
            Ghost(outlives(self.queue.deep_view(), conversation_id@)),
        );
        *self = StorageService { conversations, messages, attachments, queue, queue_attachments };
        Ok(())
    }

    /// Whether the conversation `conversation_id` exists, readable or not.
    fn holds_conversation(&self, conversation_id: &str) -> (held: bool)
        ensures
            held == has_key(self@.conversations, conversation_id@),
    {
        let same_id = |held: &ConversationRow| -> (hit: bool)
            ensures
                hit == (held@.id == conversation_id@),
            {
                str_eq(held.id.as_str(), conversation_id)
            };
        let found = find_row(&self.conversations, same_id, Ghost(with_key(conversation_id@)));
        proof {
            if let Some(i) = found {
                assert(self@.conversations[i as int].key() == conversation_id@);
            }
        }
        found.is_some()
    }

    /// Writes a message and its attachments as one change: the message is
    /// inserted, or overwrites the one with the same id but for the
    /// conversation it belongs to; its attachments replace whatever
    /// attachments the message had. A new message whose conversation does
    /// not exist is refused, and the store stays as it was.
    pub fn upsert_message(&mut self, message: &Message) -> (done: StorageResult<()>)
        ensures
            match old(self)@.message_written(
                message_to_row(message@),
                attachments_to_rows(message@.id, message@.attachments),
            ) {
                Ok(store) => done is Ok && final(self)@ == store,
                Err(error) => done matches Err(refusal) && refusal@ == error && final(self)@
                    == old(self)@,
            },
            final(self)@.wf(),
    {
        proof {
            use_type_invariant(&*self);
        }
        let row = message_row(message);
        let same_id = |held: &MessageRow| -> (hit: bool)
            ensures
                hit == (held@.id == row@.id),
            {
                held.id == row.id
            };
        let found = find_row(&self.messages, same_id, Ghost(with_key(row@.id)));
        proof {
            if let Some(i) = found {
                lemma_index_of_key(self@.messages, row@.id, i as int);
            }
        }
        if found.is_none() && !self.holds_conversation(row.conversation_id.as_str()) {
            return Err(StorageError::Database("FOREIGN KEY constraint failed".to_owned()));
        }
        let mut children = message_attachment_rows(message);
        let ghost new_children = children.deep_view();
        let of_other = |held: &AttachmentRow| -> (kept: bool)
            ensures
                kept == (held@.message_id != row@.id),
            {
                held.message_id != row.id
            };
        let mut attachments = keep_rows(&self.attachments, of_other, Ghost(not_owned_by(row@.id)));
        let ghost kept_children = attachments.deep_view();
        attachments.append(&mut children);
        assert(attachments.deep_view() =~= kept_children + new_children);

        let mut table: Vec<MessageRow> = Vec::new();
        core::mem::swap(&mut table, &mut self.messages);
        let ghost before = table.deep_view();
        match found {
            Some(i) => {
                let merged = MessageRow { conversation_id: table[i].conversation_id.clone(), ..row };
                table.set(i, merged);
                assert(table.deep_view() =~= upsert_message_row(before, row@));
            },
            None => {
                table.push(row);
                assert(table.deep_view() =~= upsert_message_row(before, row@));
            },
        }
        self.messages = table;
        self.attachments = attachments;
        Ok(())
    }

    /// Reads the message `message_id` with its attachments, or `None` where
    /// there is none.
    pub fn get_message(&self, message_id: &str) -> (read: StorageResult<Option<Message>>)
        ensures
            viewed(read) == self@.message(message_id@),
    {
        proof {
            use_type_invariant(self);
        }
        let same_id = |held: &MessageRow| -> (hit: bool)
            ensures
                hit == (held@.id == message_id@),
            {
                str_eq(held.id.as_str(), message_id)
            };
        let found = find_row(&self.messages, same_id, Ghost(with_key(message_id@)));
        match found {
            Some(i) => {
                proof {
                    lemma_index_of_key(self.messages.deep_view(), message_id@, i as int);
                }
                let mut message = map_row_to_message(&self.messages[i])?;
                let owned = |held: &AttachmentRow| -> (hit: bool)
                    ensures
                        hit == (held@.message_id == message_id@),
                    {
                        str_eq(held.message_id.as_str(), message_id)
                    };
                let rows = keep_rows(&self.attachments, owned, Ghost(owned_by(message_id@)));
                message.attachments = map_rows_to_attachments(&rows);
                Ok(Some(message))
            },
            None => Ok(None),
        }
    }

    /// Queues an entry and its attachments as one change: the entry is
    /// inserted, or overwrites the one with the same id but for its
    /// conversation and its creation time; its queued attachments replace
    /// whatever the entry had queued. An entry that has used more retries
    /// than it was given is refused, and so is a new entry whose
    /// conversation does not exist; the store then stays as it was.
    pub fn enqueue_message(&mut self, entry: &MessageQueueEntry) -> (done: StorageResult<()>)
        ensures
            match old(self)@.queue_entry_written(
                queue_entry_to_row(entry@),
                queued_attachments_to_rows(entry@.id, entry@.attachments),
            ) {
                Ok(store) => done is Ok && final(self)@ == store,
                Err(error) => done matches Err(refusal) && refusal@ == error && final(self)@
                    == old(self)@,
            },
            final(self)@.wf(),
    {
        proof {
            use_type_invariant(&*self);
        }
        if entry.retry_count > entry.max_retries {
            return Err(
                StorageError::Database(
                    "CHECK constraint failed: retry_count <= max_retries".to_owned(),
                ),
            );
        }
        let row = queue_entry_row(entry);
        let same_id = |held: &QueueRow| -> (hit: bool)
            ensures
                hit == (held@.id == row@.id),
            {
                held.id == row.id
            };
        let found = find_row(&self.queue, same_id, Ghost(with_key(row@.id)));
        proof {
            if let Some(i) = found {
                lemma_index_of_key(self@.queue, row@.id, i as int);
            }
        }
        if found.is_none() && !self.holds_conversation(row.conversation_id.as_str()) {
            return Err(StorageError::Database("FOREIGN KEY constraint failed".to_owned()));
        }
        let mut children = queued_attachment_rows(entry);
        let ghost new_children = children.deep_view();
        let of_other = |held: &QueueAttachmentRow| -> (kept: bool)
            ensures
                kept == (held@.queue_id != row@.id),
            {
                held.queue_id != row.id
            };
        let mut attachments = keep_rows(
            &self.queue_attachments,
            of_other,
            Ghost(not_owned_by(row@.id)),
        );
        let ghost kept_children = attachments.deep_view();
        attachments.append(&mut children);
        assert(attachments.deep_view() =~= kept_children + new_children);

        let mut table: Vec<QueueRow> = Vec::new();
        core::mem::swap(&mut table, &mut self.queue);
        let ghost before = table.deep_view();
        let ghost written = row@;
        match found {
            Some(i) => {
                let merged = QueueRow {
                    conversation_id: table[i].conversation_id.clone(),
                    created_at: table[i].created_at,
                    ..row
                };
                table.set(i, merged);
                assert(table.deep_view() =~= upsert_queue_row(before, written));
            },
            None => {
                table.push(row);
                assert(table.deep_view() =~= upsert_queue_row(before, written));
            },
        }
        assert forall|k: int| 0 <= k < table.len() implies in_budget(
            #[trigger] table.deep_view()[k],
        ) by {
            if k < before.len() && !(has_key(before, written.id) && k == index_of_key(
                before,
                written.id,
            )) {
                assert(table.deep_view()[k] == before[k]);
            }
        }
        self.queue = table;
        self.queue_attachments = attachments;
        Ok(())
    }

    /// Lists the entries that may be sent at `now`, each with its queued
    /// attachments, in the order in which they were queued.
    pub fn list_pending_queue(&self, now: Timestamp) -> (listed: StorageResult<
        Vec<MessageQueueEntry>,
    >)
        ensures
            viewed(listed) == self@.pending_queue(now@),
            self@.wf(),
    {
        proof {
            use_type_invariant(self);
        }
        let bound = encode_timestamp(now);
        let may_be_sent = |held: &QueueRow| -> (kept: bool)
            ensures
                kept == (held@.retry_count < held@.max_retries && (held@.next_retry_at matches Some(
                    at,
                ) ==> at <= bound)),
            {
                held.retry_count < held.max_retries && match held.next_retry_at {
                    Some(at) => at <= bound,
                    None => true,
                }
            };
        let rows = keep_rows(&self.queue, may_be_sent, Ghost(eligible_at(now@)));
        let ghost all = rows.deep_view();
        let ghost children = self@.queue_attachments;
        let mut entries: Vec<MessageQueueEntry> = Vec::new();
        let mut i: usize = 0;
        assert(all.take(0) =~= Seq::empty());
        assert(entries.deep_view() =~= Seq::empty());
        while i < rows.len()
            invariant
                i <= rows.len(),
                self@.wf(),
                all == rows.deep_view(),
                all == self@.queue.filter(eligible_at(now@)),
                children == self@.queue_attachments,
                read_queue_rows(all.take(i as int), children) == Ok::<
                    Seq<MessageQueueEntryView>,
                    StorageErrorView,
                >(entries.deep_view()),
            decreases rows.len() - i,
        {
            let ghost read_so_far = entries.deep_view();
            proof {
                assert(all.take(i + 1).drop_last() =~= all.take(i as int));
                assert(all.take(i + 1).last() == all[i as int]);
            }
            let mut entry = match map_row_to_queue_entry(&rows[i]) {
                Ok(entry) => entry,
                Err(error) => {
                    proof {
                        assert(row_to_queue_entry(all.take(i + 1).last()) is Err);
                        assert(read_queue_rows(all.take(i + 1), children) is Err);
                        lemma_read_queue_rows_fails(all, children, i + 1);
                    }
                    return Err(error);
                },
            };
            let owned = |held: &QueueAttachmentRow| -> (hit: bool)
                ensures
                    hit == (held@.queue_id == rows[i as int]@.id),
                {
                    held.queue_id == rows[i].id
                };
            let owned_rows = keep_rows(
                &self.queue_attachments,
                owned,
                Ghost(owned_by(rows[i as int]@.id)),
            );
            entry.attachments = map_rows_to_queued_attachments(&owned_rows);
            entries.push(entry);
            assert(entries.deep_view() =~= read_so_far.push(entry@));
            i += 1;
        }
        assert(all.take(rows.len() as int) =~= all);
        Ok(entries)
    }

    /// Removes the queue entry `queue_id` with its queued attachments.
    pub fn delete_queue_entry(&mut self, queue_id: &str) -> (done: StorageResult<()>)
        ensures
            done is Ok,
            final(self)@ == old(self)@.without_queue_entry(queue_id@),
            final(self)@.wf(),
    {
        proof {
            use_type_invariant(&*self);
            lemma_filter_keeps_unique(self@.queue, without_key(queue_id@));
            lemma_filter_keeps_budgets(self@.queue, without_key(queue_id@));
        }
        let other_id = |held: &QueueRow| -> (kept: bool)
            ensures
                kept == (held@.id != queue_id@),
            {
                !str_eq(held.id.as_str(), queue_id)
            };
        let queue = keep_rows(&self.queue, other_id, Ghost(without_key(queue_id@)));
        let of_other = |held: &QueueAttachmentRow| -> (kept: bool)
            ensures
                kept == (held@.queue_id != queue_id@),
            {
                !str_eq(held.queue_id.as_str(), queue_id)
            };
        let queue_attachments = keep_rows(
            &self.queue_attachments,
            of_other,
            Ghost(not_owned_by(queue_id@)),
        );
        self.queue = queue;
        self.queue_attachments = queue_attachments;
        Ok(())
    }

    /// Rewrites the retry bookkeeping of the queue entry `queue_id`. Without
    /// such an entry nothing changes. A count of used retries beyond what
    /// the entry was given is refused, and the store stays as it was.
    pub fn update_queue_retry(
        &mut self,
        queue_id: &str,
        retry_count: u32,
        next_retry_at: Option<Timestamp>,
        error_message: Option<String>,
        state: ProcessingState,
    ) -> (done: StorageResult<()>)
        ensures
            match old(self)@.retry_written(
                queue_id@,
                retry_count as i64,
                instant_to_column(next_retry_at.deep_view()),
                error_message.deep_view(),
                state.tag(),
            ) {
                Ok(store) => done is Ok && final(self)@ == store,
                Err(error) => done matches Err(refusal) && refusal@ == error && final(self)@
                    == old(self)@,
            },
            final(self)@.wf(),
    {
        proof {
            use_type_invariant(&*self);
        }
        let same_id = |held: &QueueRow| -> (hit: bool)
            ensures
                hit == (held@.id == queue_id@),
            {
                str_eq(held.id.as_str(), queue_id)
            };
        let found = find_row(&self.queue, same_id, Ghost(with_key(queue_id@)));
        proof {
            if let Some(i) = found {
                lemma_index_of_key(self@.queue, queue_id@, i as int);
            }
        }
        if let Some(i) = found {
            if retry_count as i64 > self.queue[i].max_retries {
                return Err(
                    StorageError::Database(
                        "CHECK constraint failed: retry_count <= max_retries".to_owned(),
                    ),
                );
            }
        }
        let mut table: Vec<QueueRow> = Vec::new();
        core::mem::swap(&mut table, &mut self.queue);
        let ghost before = table.deep_view();
        match found {
            Some(i) => {
                let rewritten = QueueRow {
                    id: table[i].id.clone(),
                    conversation_id: table[i].conversation_id.clone(),
                    message_content: table[i].message_content.clone(),
                    created_at: table[i].created_at,
                    retry_count: retry_count as i64,
                    max_retries: table[i].max_retries,
                    next_retry_at: encode_optional_timestamp(next_retry_at),
                    error_message,
                    processing_state: state.as_str().to_owned(),
                };
                table.set(i, rewritten);
                assert(table.deep_view() =~= rewrite_retry(
                    before,
                    queue_id@,
                    retry_count as i64,
                    instant_to_column(next_retry_at.deep_view()),
                    error_message.deep_view(),
                    state.tag(),
                ));
            },
            None => {},
        }
        assert forall|k: int| 0 <= k < table.len() implies in_budget(
            #[trigger] table.deep_view()[k],
        ) by {
            if !(has_key(before, queue_id@) && k == index_of_key(before, queue_id@)) {
                assert(table.deep_view()[k] == before[k]);
            } else {
                assert(in_budget(before[k]));
            }
        }
        self.queue = table;
        Ok(())
    }
}

/// Copies the rows into a list that runs from the newest to the oldest.
fn sort_newest_first(rows: &Vec<ConversationRow>) -> (sorted: Vec<ConversationRow>)
    ensures
        sorted.deep_view() == newest_first(rows.deep_view()),
{
    let mut sorted: Vec<ConversationRow> = Vec::new();
    let mut i: usize = 0;
    assert(rows.deep_view().take(0) =~= Seq::empty());
    assert(sorted.deep_view() =~= Seq::empty());
    while i < rows.len()
        invariant
            i <= rows.len(),
            sorted.len() == i,
            sorted.deep_view() == newest_first(rows.deep_view().take(i as int)),
        decreases rows.len() - i,
    {
        let ghost done = sorted.deep_view();
        let ghost stamp = rows[i as int]@.updated_at;
        let mut at: usize = sorted.len();
        assert(done.take(at as int) =~= done);
        while at > 0 && sorted[at - 1].updated_at < rows[i].updated_at
            invariant
                at <= sorted.len(),
                i < rows.len(),
                done == sorted.deep_view(),
                stamp == rows[i as int]@.updated_at,
                entry_point(done, stamp) == entry_point(done.take(at as int), stamp),
            decreases at,
        {
            assert(done.take(at as int).drop_last() =~= done.take(at - 1));
            at -= 1;
        }
        proof {
            assert(rows.deep_view().take(i + 1).drop_last() =~= rows.deep_view().take(i as int));
            assert(rows.deep_view().take(i + 1).last() == rows[i as int]@);
            assert(entry_point(done, stamp) == at);
        }
        sorted.insert(at, rows[i].clone());
        assert(sorted.deep_view() =~= done.insert(at as int, rows[i as int]@));
        i += 1;
    }
    assert(rows.deep_view().take(rows.len() as int) =~= rows.deep_view());
    sorted
}

/// Whether `messages` holds the message `message_id` as one of the
/// conversation `conversation_id`.
fn message_in_conversation(
    messages: &Vec<MessageRow>,
    message_id: &str,
    conversation_id: &str,
) -> (held: bool)
    ensures
        held == parent_in(messages.deep_view(), message_id@, conversation_id@),
{
    let is_it = |row: &MessageRow| -> (hit: bool)
        ensures
            hit == (row@.id == message_id@ && row@.conversation_id == conversation_id@),
        {
            str_eq(row.id.as_str(), message_id) && str_eq(
                row.conversation_id.as_str(),
                conversation_id,
            )
        };
    find_row(messages, is_it, Ghost(with_key_and_owner(message_id@, conversation_id@))).is_some()
}

/// Whether `queue` holds the entry `queue_id` as one of the conversation
/// `conversation_id`.
fn entry_in_conversation(queue: &Vec<QueueRow>, queue_id: &str, conversation_id: &str) -> (held:
    bool)
    ensures
        held == parent_in(queue.deep_view(), queue_id@, conversation_id@),
{
    let is_it = |row: &QueueRow| -> (hit: bool)
        ensures
            hit == (row@.id == queue_id@ && row@.conversation_id == conversation_id@),
        {
            str_eq(row.id.as_str(), queue_id) && str_eq(
                row.conversation_id.as_str(),
                conversation_id,
            )
        };
    find_row(queue, is_it, Ghost(with_key_and_owner(queue_id@, conversation_id@))).is_some()
}

} // verus!
