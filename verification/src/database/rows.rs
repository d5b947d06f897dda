//! The rows of the persisted tables, column by column.
//!
//! Timestamps are integer seconds since the epoch, enum columns hold the
//! canonical tag, and sizes and counters are signed 64-bit integers.

use vstd::prelude::*;

use crate::database::table::{lemma_filter_keeps_rows, lemma_filter_none};
use crate::text::copy_opt_string;

verus! {

/// A row of `conversations`.
#[derive(Debug, PartialEq, Eq)]
pub struct ConversationRow {
    pub id: String,
    pub title: String,
    pub created_at: i64,
    pub updated_at: i64,
    pub is_pinned: bool,
    pub is_starred: bool,
    pub server_id: String,
    pub sync_state: String,
    pub cache_policy: String,
    pub message_count: i64,
    pub last_message_preview: Option<String>,
}

/// What a [`ConversationRow`] holds, as mathematical values.
pub struct ConversationRowView {
    pub id: Seq<char>,
    pub title: Seq<char>,
    pub created_at: i64,
    pub updated_at: i64,
    pub is_pinned: bool,
    pub is_starred: bool,
    pub server_id: Seq<char>,
    pub sync_state: Seq<char>,
    pub cache_policy: Seq<char>,
    pub message_count: i64,
    pub last_message_preview: Option<Seq<char>>,
}

impl View for ConversationRow {
    type V = ConversationRowView;

    open spec fn view(&self) -> ConversationRowView {
        ConversationRowView {
            id: self.id@,
            title: self.title@,
            created_at: self.created_at,
            updated_at: self.updated_at,
            is_pinned: self.is_pinned,
            is_starred: self.is_starred,
            server_id: self.server_id@,
            sync_state: self.sync_state@,
            cache_policy: self.cache_policy@,
            message_count: self.message_count,
            last_message_preview: self.last_message_preview.deep_view(),
        }
    }
}

impl DeepView for ConversationRow {
    type V = ConversationRowView;

    open spec fn deep_view(&self) -> ConversationRowView {
        self.view()
    }
}

impl Clone for ConversationRow {
    fn clone(&self) -> (copy: ConversationRow)
        ensures
            copy@ == self@,
    {
        ConversationRow {
            id: self.id.clone(),
            title: self.title.clone(),
            created_at: self.created_at,
            updated_at: self.updated_at,
            is_pinned: self.is_pinned,
            is_starred: self.is_starred,
            server_id: self.server_id.clone(),
            sync_state: self.sync_state.clone(),
            cache_policy: self.cache_policy.clone(),
            message_count: self.message_count,
            last_message_preview: copy_opt_string(&self.last_message_preview),
        }
    }
}

/// A row of `messages`. `metadata` holds a JSON object as text.
#[derive(Debug, PartialEq, Eq)]
pub struct MessageRow {
    pub id: String,
    pub conversation_id: String,
    pub content: String,
    pub role: String,
    pub timestamp: i64,
    pub sync_state: String,
    pub metadata: String,
    pub processing_state: String,
}

/// What a [`MessageRow`] holds, as mathematical values.
pub struct MessageRowView {
    pub id: Seq<char>,
    pub conversation_id: Seq<char>,
    pub content: Seq<char>,
    pub role: Seq<char>,
    pub timestamp: i64,
    pub sync_state: Seq<char>,
    pub metadata: Seq<char>,
    pub processing_state: Seq<char>,
}

impl View for MessageRow {
    type V = MessageRowView;

    open spec fn view(&self) -> MessageRowView {
        MessageRowView {
            id: self.id@,
            conversation_id: self.conversation_id@,
            content: self.content@,
            role: self.role@,
            timestamp: self.timestamp,
            sync_state: self.sync_state@,
            metadata: self.metadata@,
            processing_state: self.processing_state@,
        }
    }
}

impl DeepView for MessageRow {
    type V = MessageRowView;

    open spec fn deep_view(&self) -> MessageRowView {
        self.view()
    }
}

impl Clone for MessageRow {
    fn clone(&self) -> (copy: MessageRow)
        ensures
            copy@ == self@,
    {
        MessageRow {
            id: self.id.clone(),
            conversation_id: self.conversation_id.clone(),
            content: self.content.clone(),
            role: self.role.clone(),
            timestamp: self.timestamp,
            sync_state: self.sync_state.clone(),
            metadata: self.metadata.clone(),
            processing_state: self.processing_state.clone(),
        }
    }
}

/// A row of `message_attachments`; it is owned by the message it names.
#[derive(Debug, PartialEq, Eq)]
pub struct AttachmentRow {
    pub message_id: String,
    pub file_id: String,
    pub filename: String,
    pub mime_type: Option<String>,
    pub size_bytes: Option<i64>,
}

/// What a [`AttachmentRow`] holds, as mathematical values.
pub struct AttachmentRowView {
    pub message_id: Seq<char>,
    pub file_id: Seq<char>,
    pub filename: Seq<char>,
    pub mime_type: Option<Seq<char>>,
    pub size_bytes: Option<i64>,
}

impl View for AttachmentRow {
    type V = AttachmentRowView;

    open spec fn view(&self) -> AttachmentRowView {
        AttachmentRowView {
            message_id: self.message_id@,
            file_id: self.file_id@,
            filename: self.filename@,
            mime_type: self.mime_type.deep_view(),
            size_bytes: self.size_bytes,
        }
    }
}

impl DeepView for AttachmentRow {
    type V = AttachmentRowView;

    open spec fn deep_view(&self) -> AttachmentRowView {
        self.view()
    }
}

impl Clone for AttachmentRow {
    fn clone(&self) -> (copy: AttachmentRow)
        ensures
            copy@ == self@,
    {
        AttachmentRow {
            message_id: self.message_id.clone(),
            file_id: self.file_id.clone(),
            filename: self.filename.clone(),
            mime_type: copy_opt_string(&self.mime_type),
            size_bytes: self.size_bytes,
        }
    }
}

/// A row of `message_queue`.
#[derive(Debug, PartialEq, Eq)]
pub struct QueueRow {
    pub id: String,
    pub conversation_id: String,
    pub message_content: String,
    pub created_at: i64,
    pub retry_count: i64,
    pub max_retries: i64,
    pub next_retry_at: Option<i64>,
    pub error_message: Option<String>,
    pub processing_state: String,
}

/// What a [`QueueRow`] holds, as mathematical values.
pub struct QueueRowView {
    pub id: Seq<char>,
    pub conversation_id: Seq<char>,
    pub message_content: Seq<char>,
    pub created_at: i64,
    pub retry_count: i64,
    pub max_retries: i64,
    pub next_retry_at: Option<i64>,
    pub error_message: Option<Seq<char>>,
    pub processing_state: Seq<char>,
}

impl View for QueueRow {
    type V = QueueRowView;

    open spec fn view(&self) -> QueueRowView {
        QueueRowView {
            id: self.id@,
            conversation_id: self.conversation_id@,
            message_content: self.message_content@,
            created_at: self.created_at,
            retry_count: self.retry_count,
            max_retries: self.max_retries,
            next_retry_at: self.next_retry_at,
            error_message: self.error_message.deep_view(),
            processing_state: self.processing_state@,
        }
    }
}

impl DeepView for QueueRow {
    type V = QueueRowView;

    open spec fn deep_view(&self) -> QueueRowView {
        self.view()
    }
}

impl Clone for QueueRow {
    fn clone(&self) -> (copy: QueueRow)
        ensures
            copy@ == self@,
    {
        QueueRow {
            id: self.id.clone(),
            conversation_id: self.conversation_id.clone(),
            message_content: self.message_content.clone(),
            created_at: self.created_at,
            retry_count: self.retry_count,
            max_retries: self.max_retries,
            next_retry_at: self.next_retry_at,
            error_message: copy_opt_string(&self.error_message),
            processing_state: self.processing_state.clone(),
        }
    }
}

/// A row of `message_queue_attachments`; it is owned by the queue entry it names.
#[derive(Debug, PartialEq, Eq)]
pub struct QueueAttachmentRow {
    pub queue_id: String,
    pub file_path: String,
    pub mime_type: Option<String>,
    pub size_bytes: Option<i64>,
}

/// What a [`QueueAttachmentRow`] holds, as mathematical values.
pub struct QueueAttachmentRowView {
    pub queue_id: Seq<char>,
    pub file_path: Seq<char>,
    pub mime_type: Option<Seq<char>>,
    pub size_bytes: Option<i64>,
}

impl View for QueueAttachmentRow {
    type V = QueueAttachmentRowView;

    open spec fn view(&self) -> QueueAttachmentRowView {
        QueueAttachmentRowView {
            queue_id: self.queue_id@,
            file_path: self.file_path@,
            mime_type: self.mime_type.deep_view(),
            size_bytes: self.size_bytes,
        }
    }
}

impl DeepView for QueueAttachmentRow {
    type V = QueueAttachmentRowView;

    open spec fn deep_view(&self) -> QueueAttachmentRowView {
        self.view()
    }
}

impl Clone for QueueAttachmentRow {
    fn clone(&self) -> (copy: QueueAttachmentRow)
        ensures
            copy@ == self@,
    {
        QueueAttachmentRow {
            queue_id: self.queue_id.clone(),
            file_path: self.file_path.clone(),
            mime_type: copy_opt_string(&self.mime_type),
            size_bytes: self.size_bytes,
        }
    }
}

/// A row of `encrypted_cache`.
#[derive(Debug, PartialEq, Eq)]
pub struct CacheRow {
    pub cache_key: String,
    pub encrypted_data: Vec<u8>,
    pub created_at: i64,
    pub accessed_at: i64,
    pub expires_at: Option<i64>,
    pub cache_type: String,
    pub size_bytes: i64,
    pub encryption_key_id: String,
}

/// What a [`CacheRow`] holds, as mathematical values.
pub struct CacheRowView {
    pub cache_key: Seq<char>,
    pub encrypted_data: Seq<u8>,
    pub created_at: i64,
    pub accessed_at: i64,
    pub expires_at: Option<i64>,
    pub cache_type: Seq<char>,
    pub size_bytes: i64,
    pub encryption_key_id: Seq<char>,
}

impl View for CacheRow {
    type V = CacheRowView;

    open spec fn view(&self) -> CacheRowView {
        CacheRowView {
            cache_key: self.cache_key@,
            encrypted_data: self.encrypted_data@,
            created_at: self.created_at,
            accessed_at: self.accessed_at,
            expires_at: self.expires_at,
            cache_type: self.cache_type@,
            size_bytes: self.size_bytes,
            encryption_key_id: self.encryption_key_id@,
        }
    }
}

impl DeepView for CacheRow {
    type V = CacheRowView;

    open spec fn deep_view(&self) -> CacheRowView {
        self.view()
    }
}

impl Clone for CacheRow {
    fn clone(&self) -> (copy: CacheRow)
        ensures
            copy@ == self@,
    {
        CacheRow {
            cache_key: self.cache_key.clone(),
            encrypted_data: self.encrypted_data.clone(),
            created_at: self.created_at,
            accessed_at: self.accessed_at,
            expires_at: self.expires_at,
            cache_type: self.cache_type.clone(),
            size_bytes: self.size_bytes,
            encryption_key_id: self.encryption_key_id.clone(),
        }
    }
}

/// A row that one column identifies.
pub trait Keyed {
    /// The value of the identifying column.
    spec fn key(&self) -> Seq<char>;
}

/// A row that belongs to a row of another table, and goes when that row
/// goes.
pub trait Owned {
    /// The key of the row that this row belongs to.
    spec fn owner(&self) -> Seq<char>;
}

impl Keyed for ConversationRowView {
    open spec fn key(&self) -> Seq<char> {
        self.id
    }
}

impl Keyed for MessageRowView {
    open spec fn key(&self) -> Seq<char> {
        self.id
    }
}

impl Owned for MessageRowView {
    open spec fn owner(&self) -> Seq<char> {
        self.conversation_id
    }
}

impl Owned for AttachmentRowView {
    open spec fn owner(&self) -> Seq<char> {
        self.message_id
    }
}

impl Keyed for QueueRowView {
    open spec fn key(&self) -> Seq<char> {
        self.id
    }
}

impl Owned for QueueRowView {
    open spec fn owner(&self) -> Seq<char> {
        self.conversation_id
    }
}

impl Owned for QueueAttachmentRowView {
    open spec fn owner(&self) -> Seq<char> {
        self.queue_id
    }
}

impl Keyed for CacheRowView {
    open spec fn key(&self) -> Seq<char> {
        self.cache_key
    }
}

/// Whether no two rows share a key.
pub open spec fn keys_unique<R: Keyed>(rows: Seq<R>) -> bool {
    forall|i: int, j: int|
        0 <= i < rows.len() && 0 <= j < rows.len() && #[trigger] rows[i].key()
            == #[trigger] rows[j].key() ==> i == j
}

/// Whether some row has the key.
pub open spec fn has_key<R: Keyed>(rows: Seq<R>, key: Seq<char>) -> bool {
    exists|i: int| 0 <= i < rows.len() && #[trigger] rows[i].key() == key
}

/// The place of a row with the key, where there is one.
pub open spec fn index_of_key<R: Keyed>(rows: Seq<R>, key: Seq<char>) -> int {
    choose|i: int| 0 <= i < rows.len() && #[trigger] rows[i].key() == key
}

/// The row with the key, where there is one.
pub open spec fn row_of<R: Keyed>(rows: Seq<R>, key: Seq<char>) -> Option<R> {
    if has_key(rows, key) {
        Some(rows[index_of_key(rows, key)])
    } else {
        None
    }
}

/// The table after a row was put as it is: it replaces the row with the same
/// key, or is appended.
pub open spec fn put_row<R: Keyed>(rows: Seq<R>, row: R) -> Seq<R> {
    if has_key(rows, row.key()) {
        rows.update(index_of_key(rows, row.key()), row)
    } else {
        rows.push(row)
    }
}

/// Accepts the rows with the key.
pub open spec fn with_key<R: Keyed>(key: Seq<char>) -> spec_fn(R) -> bool {
    |row: R| row.key() == key
}

/// Accepts the rows with another key.
pub open spec fn without_key<R: Keyed>(key: Seq<char>) -> spec_fn(R) -> bool {
    |row: R| row.key() != key
}

/// Accepts the rows that belong to `owner`.
pub open spec fn owned_by<R: Owned>(owner: Seq<char>) -> spec_fn(R) -> bool {
    |row: R| row.owner() == owner
}

/// Accepts the rows that belong to another row than `owner`.
pub open spec fn not_owned_by<R: Owned>(owner: Seq<char>) -> spec_fn(R) -> bool {
    |row: R| row.owner() != owner
}

/// Whether `parents` holds a row with the key `key` that belongs to `owner`.
pub open spec fn parent_in<P: Keyed + Owned>(
    parents: Seq<P>,
    key: Seq<char>,
    owner: Seq<char>,
) -> bool {
    exists|i: int|
        0 <= i < parents.len() && #[trigger] parents[i].key() == key && parents[i].owner()
            == owner
}

/// Accepts the rows whose owner in `parents` does not belong to `owner`:
/// the rows that stay when `owner` goes and takes what it owns with it.
pub open spec fn outlives<R: Owned, P: Keyed + Owned>(
    parents: Seq<P>,
    owner: Seq<char>,
) -> spec_fn(R) -> bool {
    |row: R| !parent_in(parents, row.owner(), owner)
}

/// Accepts the rows with the key `key` that belong to `owner`.
pub open spec fn with_key_and_owner<P: Keyed + Owned>(
    key: Seq<char>,
    owner: Seq<char>,
) -> spec_fn(P) -> bool {
    |row: P| row.key() == key && row.owner() == owner
}

/// Filtering keeps keys unique.
pub proof fn lemma_filter_keeps_unique<R: Keyed>(rows: Seq<R>, wanted: spec_fn(R) -> bool)
    requires
        keys_unique(rows),
    ensures
        keys_unique(rows.filter(wanted)),
    decreases rows.len(),
{
    reveal(Seq::filter);
    if rows.len() > 0 {
        let front = rows.drop_last();
        let last = rows.last();
        assert(keys_unique(front)) by {
            assert forall|i: int, j: int|
                0 <= i < front.len() && 0 <= j < front.len() && #[trigger] front[i].key()
                    == #[trigger] front[j].key() implies i == j by {
                assert(rows[i].key() == rows[j].key());
            }
        }
        lemma_filter_keeps_unique(front, wanted);
        let kept = front.filter(wanted);
        if wanted(last) {
            let out = kept.push(last);
            assert forall|i: int| 0 <= i < kept.len() implies #[trigger] kept[i].key()
                != last.key() by {
                front.lemma_filter_contains_rev(wanted, kept[i]);
                let a = choose|a: int| 0 <= a < front.len() && front[a] == kept[i];
                assert(rows[a].key() == kept[i].key());
                assert(rows[rows.len() - 1].key() == last.key());
            }
            assert forall|i: int, j: int|
                0 <= i < out.len() && 0 <= j < out.len() && #[trigger] out[i].key()
                    == #[trigger] out[j].key() implies i == j by {
                if i < kept.len() && j < kept.len() {
                    assert(kept[i].key() == kept[j].key());
                } else if i < kept.len() {
                    assert(kept[i].key() != last.key());
                } else if j < kept.len() {
                    assert(kept[j].key() != last.key());
                }
            }
        }
    }
}

/// A filter that lets the rows with a key pass leaves the row of that key
/// as it is.
pub proof fn lemma_filter_keeps_row_of<R: Keyed>(
    rows: Seq<R>,
    wanted: spec_fn(R) -> bool,
    key: Seq<char>,
)
    requires
        keys_unique(rows),
        forall|i: int| 0 <= i < rows.len() && (#[trigger] rows[i]).key() == key ==> wanted(rows[i]),
    ensures
        row_of(rows.filter(wanted), key) == row_of(rows, key),
{
    let kept = rows.filter(wanted);
    lemma_filter_keeps_unique(rows, wanted);
    lemma_filter_keeps_rows(rows, wanted);
    if has_key(rows, key) {
        let at = index_of_key(rows, key);
        assert(wanted(rows[at]));
        rows.lemma_filter_contains(wanted, at);
        let k = choose|k: int| 0 <= k < kept.len() && kept[k] == rows[at];
        assert(kept[k].key() == key);
        lemma_index_of_key(kept, key, k);
    } else {
        assert forall|k: int| 0 <= k < kept.len() implies (#[trigger] kept[k]).key() != key by {
            assert(rows.contains(kept[k]));
            let a = choose|a: int| 0 <= a < rows.len() && rows[a] == kept[k];
            assert(rows[a].key() != key);
        }
    }
}

/// Overwriting a row by one with the same key leaves the rows of the other
/// keys as they are, and keeps the keys unique.
pub proof fn lemma_update_keeps_row_of<R: Keyed>(rows: Seq<R>, at: int, row: R, key: Seq<char>)
    requires
        keys_unique(rows),
        0 <= at < rows.len(),
        row.key() == rows[at].key(),
        key != row.key(),
    ensures
        keys_unique(rows.update(at, row)),
        row_of(rows.update(at, row), key) == row_of(rows, key),
{
    let after = rows.update(at, row);
    assert forall|i: int, j: int|
        0 <= i < after.len() && 0 <= j < after.len() && #[trigger] after[i].key()
            == #[trigger] after[j].key() implies i == j by {
        assert(after[i].key() == rows[i].key());
        assert(after[j].key() == rows[j].key());
    }
    if has_key(rows, key) {
        let held = index_of_key(rows, key);
        assert(after[held].key() == key);
        lemma_index_of_key(after, key, held);
    } else {
        assert forall|k: int| 0 <= k < after.len() implies (#[trigger] after[k]).key() != key by {
            assert(rows[k].key() != key);
        }
    }
}

/// Where keys are unique, a key that is held is held by exactly one row.
pub proof fn lemma_key_held_once<R: Keyed>(rows: Seq<R>, key: Seq<char>)
    requires
        keys_unique(rows),
        has_key(rows, key),
    ensures
        rows.filter(with_key(key)).len() == 1,
        rows.filter(with_key(key))[0] == rows[index_of_key(rows, key)],
    decreases rows.len(),
{
    reveal(Seq::filter);
    let at = index_of_key(rows, key);
    let front = rows.drop_last();
    let last = rows.last();
    assert(keys_unique(front)) by {
        assert forall|i: int, j: int|
            0 <= i < front.len() && 0 <= j < front.len() && #[trigger] front[i].key()
                == #[trigger] front[j].key() implies i == j by {
            assert(rows[i].key() == rows[j].key());
        }
    }
    if at == rows.len() - 1 {
        assert forall|i: int| 0 <= i < front.len() implies !with_key::<R>(key)(
            #[trigger] front[i],
        ) by {
            assert(rows[i].key() != rows[at].key());
        }
        lemma_filter_none(front, with_key(key));
        assert(with_key::<R>(key)(last));
        assert(rows.filter(with_key(key)) =~= seq![last]);
    } else {
        assert(front[at].key() == key);
        assert(has_key(front, key));
        lemma_index_of_key(front, key, at);
        lemma_key_held_once(front, key);
        assert(rows[rows.len() - 1].key() != rows[at].key());
        assert(!with_key::<R>(key)(last));
    }
}

/// Where keys are unique, a row with the key stands at the place that
/// `index_of_key` names.
pub proof fn lemma_index_of_key<R: Keyed>(rows: Seq<R>, key: Seq<char>, i: int)
    requires
        keys_unique(rows),
        0 <= i < rows.len(),
        rows[i].key() == key,
    ensures
        has_key(rows, key),
        index_of_key(rows, key) == i,
{
}

} // verus!
