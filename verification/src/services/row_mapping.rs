//! Between records and rows.
//!
//! Writing a record as a row cannot fail. Reading a row can: a timestamp
//! column may lie outside the calendar, an enum column may hold an unknown
//! tag, and the metadata column may not hold a JSON object. The columns are
//! checked in a fixed order and the first failure is the one reported.

use vstd::prelude::*;

use crate::database::rows::{
    AttachmentRow, AttachmentRowView, ConversationRow, ConversationRowView, MessageRow,
    MessageRowView, QueueAttachmentRow, QueueAttachmentRowView, QueueRow, QueueRowView,
};
use crate::models::message::json_object_complaint;
use crate::models::timestamp::representable;
use crate::models::{
    CachePolicy, Conversation, ConversationView, Message, MessageAttachment,
    MessageAttachmentView, MessageQueueEntry, MessageQueueEntryView, MessageRole, MessageView,
    Metadata, ProcessingState, QueuedAttachment, QueuedAttachmentView, SyncState, Timestamp,
};
use crate::services::storage_service::{viewed, StorageError, StorageErrorView, StorageResult};
use crate::text::copy_opt_string;

verus! {

/// The column value of an instant.
pub fn encode_timestamp(instant: Timestamp) -> (seconds: i64)
    ensures
        seconds == instant@,
        representable(seconds as int),
{
    instant.seconds()
}

/// The instant of a column value; `field` names the column in the error.
pub fn decode_timestamp(seconds: i64, field: &'static str) -> (decoded: StorageResult<Timestamp>)
    ensures
        match decoded {
            Ok(instant) => representable(seconds as int) && instant@ == seconds,
            Err(error) => !representable(seconds as int) && error@
                == StorageErrorView::InvalidTimestamp(field@),
        },
{
    match Timestamp::from_seconds(seconds) {
        Some(instant) => Ok(instant),
        None => Err(StorageError::InvalidTimestamp(field)),
    }
}

/// The row that a conversation is written as.
pub open spec fn conversation_to_row(conversation: ConversationView) -> ConversationRowView {
    ConversationRowView {
        id: conversation.id,
        title: conversation.title,
        created_at: conversation.created_at as i64,
        updated_at: conversation.updated_at as i64,
        is_pinned: conversation.is_pinned,
        is_starred: conversation.is_starred,
        server_id: conversation.server_id,
        sync_state: conversation.sync_state.tag(),
        cache_policy: conversation.cache_policy.tag(),
        message_count: conversation.message_count as i64,
        last_message_preview: conversation.last_message_preview,
    }
}

/// The conversation that a row is read as.
pub open spec fn row_to_conversation(row: ConversationRowView) -> Result<
    ConversationView,
    StorageErrorView,
> {
    if !representable(row.created_at as int) {
        Err(StorageErrorView::InvalidTimestamp("created_at"@))
    } else if !representable(row.updated_at as int) {
        Err(StorageErrorView::InvalidTimestamp("updated_at"@))
    } else if SyncState::parse(row.sync_state) is None {
        Err(StorageErrorView::InvalidEnum("invalid SyncState: "@ + row.sync_state))
    } else if CachePolicy::parse(row.cache_policy) is None {
        Err(StorageErrorView::InvalidEnum("invalid CachePolicy: "@ + row.cache_policy))
    } else {
        Ok(
            ConversationView {
                id: row.id,
                title: row.title,
                created_at: row.created_at as int,
                updated_at: row.updated_at as int,
                is_pinned: row.is_pinned,
                is_starred: row.is_starred,
                server_id: row.server_id,
                sync_state: SyncState::parse(row.sync_state)->Some_0,
                cache_policy: CachePolicy::parse(row.cache_policy)->Some_0,
                message_count: row.message_count as u32,
                last_message_preview: row.last_message_preview,
            },
        )
    }
}

/// Writes a conversation as a row.
pub fn conversation_row(conversation: &Conversation) -> (row: ConversationRow)
    ensures
        row@ == conversation_to_row(conversation@),
{
    ConversationRow {
        id: conversation.id.clone(),
        title: conversation.title.clone(),
        created_at: encode_timestamp(conversation.created_at),
        updated_at: encode_timestamp(conversation.updated_at),
        is_pinned: conversation.is_pinned,
        is_starred: conversation.is_starred,
        server_id: conversation.server_id.clone(),
        sync_state: conversation.sync_state.as_str().to_owned(),
        cache_policy: conversation.cache_policy.as_str().to_owned(),
        message_count: conversation.message_count as i64,
        last_message_preview: copy_opt_string(&conversation.last_message_preview),
    }
}

/// Reads a row as a conversation.
pub fn map_row_to_conversation(row: &ConversationRow) -> (read: StorageResult<Conversation>)
    ensures
        viewed(read) == row_to_conversation(row@),
{
    let created_at = decode_timestamp(row.created_at, "created_at")?;
    let updated_at = decode_timestamp(row.updated_at, "updated_at")?;
    let sync_state = match SyncState::from_str(row.sync_state.as_str()) {
        Ok(state) => state,
        Err(message) => {
            return Err(StorageError::InvalidEnum(message));
        },
    };
    let cache_policy = match CachePolicy::from_str(row.cache_policy.as_str()) {
        Ok(policy) => policy,
        Err(message) => {
            return Err(StorageError::InvalidEnum(message));
        },
    };
    Ok(
        Conversation {
            id: row.id.clone(),
            title: row.title.clone(),
            created_at,
            updated_at,
            is_pinned: row.is_pinned,
            is_starred: row.is_starred,
            server_id: row.server_id.clone(),
            sync_state,
            cache_policy,
            message_count: #[verifier::truncate]
            (row.message_count as u32),
            last_message_preview: copy_opt_string(&row.last_message_preview),
        },
    )
}

/// A conversation whose timestamps lie in the calendar is read back from its
/// own row.
pub proof fn lemma_conversation_round_trip(conversation: ConversationView)
    requires
        representable(conversation.created_at),
        representable(conversation.updated_at),
    ensures
        row_to_conversation(conversation_to_row(conversation)) == Ok::<
            ConversationView,
            StorageErrorView,
        >(conversation),
{
    conversation.sync_state.lemma_tag_round_trip();
    conversation.cache_policy.lemma_tag_round_trip();
}

/// The column value of a size in bytes.
pub open spec fn size_to_column(size: Option<u64>) -> Option<i64> {
    match size {
        Some(bytes) => Some(bytes as i64),
        None => None,
    }
}

/// The size in bytes of a column value.
pub open spec fn column_to_size(column: Option<i64>) -> Option<u64> {
    match column {
        Some(bytes) => Some(bytes as u64),
        None => None,
    }
}

/// Writes a size as a column value.
pub fn encode_size(size: Option<u64>) -> (column: Option<i64>)
    ensures
        column == size_to_column(size),
{
    match size {
        Some(bytes) => Some(
            #[verifier::truncate]
            (bytes as i64),
        ),
        None => None,
    }
}

/// Reads a column value as a size.
pub fn decode_size(column: Option<i64>) -> (size: Option<u64>)
    ensures
        size == column_to_size(column),
{
    match column {
        Some(bytes) => Some(
            #[verifier::truncate]
            (bytes as u64),
        ),
        None => None,
    }
}

/// Every size is read back from its own column value.
pub proof fn lemma_size_round_trip(size: Option<u64>)
    ensures
        column_to_size(size_to_column(size)) == size,
{
    if let Some(bytes) = size {
        assert((bytes as i64) as u64 == bytes) by (bit_vector);
    }
}

/// The row that an attachment of the message `message_id` is written as.
pub open spec fn attachment_to_row(
    message_id: Seq<char>,
    attachment: MessageAttachmentView,
) -> AttachmentRowView {
    AttachmentRowView {
        message_id,
        file_id: attachment.file_id,
        filename: attachment.filename,
        mime_type: attachment.mime_type,
        size_bytes: size_to_column(attachment.size_bytes),
    }
}

/// The rows that the attachments of the message `message_id` are written
/// as, in their order.
pub open spec fn attachments_to_rows(
    message_id: Seq<char>,
    attachments: Seq<MessageAttachmentView>,
) -> Seq<AttachmentRowView> {
    Seq::new(attachments.len(), |i: int| attachment_to_row(message_id, attachments[i]))
}

/// The attachment that a row is read as.
pub open spec fn row_to_attachment(row: AttachmentRowView) -> MessageAttachmentView {
    MessageAttachmentView {
        file_id: row.file_id,
        filename: row.filename,
        mime_type: row.mime_type,
        size_bytes: column_to_size(row.size_bytes),
    }
}

/// The attachments that rows are read as, in their order.
pub open spec fn rows_to_attachments(rows: Seq<AttachmentRowView>) -> Seq<MessageAttachmentView> {
    Seq::new(rows.len(), |i: int| row_to_attachment(rows[i]))
}

/// The row that a message is written as. Its attachments are rows of their
/// own.
pub open spec fn message_to_row(message: MessageView) -> MessageRowView {
    MessageRowView {
        id: message.id,
        conversation_id: message.conversation_id,
        content: message.content,
        role: message.role.tag(),
        timestamp: message.timestamp as i64,
        sync_state: message.sync_state.tag(),
        metadata: message.metadata,
        processing_state: message.processing_state.tag(),
    }
}

/// The message that a row is read as, without attachments.
pub open spec fn row_to_message(row: MessageRowView) -> Result<MessageView, StorageErrorView> {
    if json_object_complaint(row.metadata) is Some {
        Err(StorageErrorView::Serialization(json_object_complaint(row.metadata)->Some_0))
    } else if MessageRole::parse(row.role) is None {
        Err(StorageErrorView::InvalidEnum("invalid MessageRole: "@ + row.role))
    } else if !representable(row.timestamp as int) {
        Err(StorageErrorView::InvalidTimestamp("timestamp"@))
    } else if SyncState::parse(row.sync_state) is None {
        Err(StorageErrorView::InvalidEnum("invalid SyncState: "@ + row.sync_state))
    } else if ProcessingState::parse(row.processing_state) is None {
        Err(StorageErrorView::InvalidEnum("invalid ProcessingState: "@ + row.processing_state))
    } else {
        Ok(
            MessageView {
                id: row.id,
                conversation_id: row.conversation_id,
                content: row.content,
                role: MessageRole::parse(row.role)->Some_0,
                timestamp: row.timestamp as int,
                sync_state: SyncState::parse(row.sync_state)->Some_0,
                attachments: Seq::empty(),
                metadata: row.metadata,
                processing_state: ProcessingState::parse(row.processing_state)->Some_0,
            },
        )
    }
}

/// Writes a message as a row.
pub fn message_row(message: &Message) -> (row: MessageRow)
    ensures
        row@ == message_to_row(message@),
{
    MessageRow {
        id: message.id.clone(),
        conversation_id: message.conversation_id.clone(),
        content: message.content.clone(),
        role: message.role.as_str().to_owned(),
        timestamp: encode_timestamp(message.timestamp),
        sync_state: message.sync_state.as_str().to_owned(),
        metadata: message.metadata.as_str().to_owned(),
        processing_state: message.processing_state.as_str().to_owned(),
    }
}

/// Writes the attachments of a message as rows.
pub fn message_attachment_rows(message: &Message) -> (rows: Vec<AttachmentRow>)
    ensures
        rows.deep_view() == attachments_to_rows(message@.id, message@.attachments),
{
    let mut rows: Vec<AttachmentRow> = Vec::new();
    let mut i: usize = 0;
    while i < message.attachments.len()
        invariant
            i <= message.attachments.len(),
            rows.len() == i,
            forall|k: int|
                0 <= k < i ==> rows[k]@ == attachment_to_row(
                    message@.id,
                    #[trigger] message.attachments[k]@,
                ),
        decreases message.attachments.len() - i,
    {
        let attachment = &message.attachments[i];
        rows.push(
            AttachmentRow {
                message_id: message.id.clone(),
                file_id: attachment.file_id.clone(),
                filename: attachment.filename.clone(),
                mime_type: copy_opt_string(&attachment.mime_type),
                size_bytes: encode_size(attachment.size_bytes),
            },
        );
        i += 1;
    }
    assert(rows.deep_view() =~= attachments_to_rows(message@.id, message@.attachments));
    rows
}

/// Reads rows as attachments.
pub fn map_rows_to_attachments(rows: &Vec<AttachmentRow>) -> (attachments: Vec<MessageAttachment>)
    ensures
        attachments.deep_view() == rows_to_attachments(rows.deep_view()),
{
    let mut attachments: Vec<MessageAttachment> = Vec::new();
    let mut i: usize = 0;
    while i < rows.len()
        invariant
            i <= rows.len(),
            attachments.len() == i,
            forall|k: int| 0 <= k < i ==> attachments[k]@ == row_to_attachment(#[trigger] rows[k]@),
        decreases rows.len() - i,
    {
        let row = &rows[i];
        attachments.push(
            MessageAttachment {
                file_id: row.file_id.clone(),
                filename: row.filename.clone(),
                mime_type: copy_opt_string(&row.mime_type),
                size_bytes: decode_size(row.size_bytes),
            },
        );
        i += 1;
    }
    assert(attachments.deep_view() =~= rows_to_attachments(rows.deep_view()));
    attachments
}

/// Reads a row as a message without attachments.
pub fn map_row_to_message(row: &MessageRow) -> (read: StorageResult<Message>)
    ensures
        viewed(read) == row_to_message(row@),
{
    let metadata = match Metadata::parse(row.metadata.as_str()) {
        Ok(metadata) => metadata,
        Err(complaint) => {
            return Err(StorageError::Serialization(complaint));
        },
    };
    let role = match MessageRole::from_str(row.role.as_str()) {
        Ok(role) => role,
        Err(message) => {
            return Err(StorageError::InvalidEnum(message));
        },
    };
    let timestamp = decode_timestamp(row.timestamp, "timestamp")?;
    let sync_state = match SyncState::from_str(row.sync_state.as_str()) {
        Ok(state) => state,
        Err(message) => {
            return Err(StorageError::InvalidEnum(message));
        },
    };
    let processing_state = match ProcessingState::from_str(row.processing_state.as_str()) {
        Ok(state) => state,
        Err(message) => {
            return Err(StorageError::InvalidEnum(message));
        },
    };
    let message = Message {
        id: row.id.clone(),
        conversation_id: row.conversation_id.clone(),
        content: row.content.clone(),
        role,
        timestamp,
        sync_state,
        attachments: Vec::new(),
        metadata,
        processing_state,
    };
    assert(message.attachments.deep_view() =~= Seq::empty());
    Ok(message)
}

/// A message whose timestamp lies in the calendar and whose metadata is a
/// JSON object is read back from its own row, but for its attachments.
pub proof fn lemma_message_round_trip(message: MessageView)
    requires
        representable(message.timestamp),
        json_object_complaint(message.metadata) is None,
    ensures
        row_to_message(message_to_row(message)) == Ok::<MessageView, StorageErrorView>(
            MessageView { attachments: Seq::empty(), ..message },
        ),
{
    message.role.lemma_tag_round_trip();
    message.sync_state.lemma_tag_round_trip();
    message.processing_state.lemma_tag_round_trip();
}

/// Attachments are read back from their own rows.
pub proof fn lemma_attachments_round_trip(
    message_id: Seq<char>,
    attachments: Seq<MessageAttachmentView>,
)
    ensures
        rows_to_attachments(attachments_to_rows(message_id, attachments)) == attachments,
{
    assert forall|i: int| 0 <= i < attachments.len() implies row_to_attachment(
        attachment_to_row(message_id, #[trigger] attachments[i]),
    ) == attachments[i] by {
        lemma_size_round_trip(attachments[i].size_bytes);
    }
    assert(rows_to_attachments(attachments_to_rows(message_id, attachments)) =~= attachments);
}

/// The row that a queued attachment of the entry `queue_id` is written as.
pub open spec fn queued_attachment_to_row(
    queue_id: Seq<char>,
    attachment: QueuedAttachmentView,
) -> QueueAttachmentRowView {
    QueueAttachmentRowView {
        queue_id,
        file_path: attachment.file_path,
        mime_type: attachment.mime_type,
        size_bytes: size_to_column(attachment.size_bytes),
    }
}

/// The rows that the queued attachments of the entry `queue_id` are written
/// as, in their order.
pub open spec fn queued_attachments_to_rows(
    queue_id: Seq<char>,
    attachments: Seq<QueuedAttachmentView>,
) -> Seq<QueueAttachmentRowView> {
    Seq::new(attachments.len(), |i: int| queued_attachment_to_row(queue_id, attachments[i]))
}

/// The queued attachment that a row is read as.
pub open spec fn row_to_queued_attachment(row: QueueAttachmentRowView) -> QueuedAttachmentView {
    QueuedAttachmentView {
        file_path: row.file_path,
        mime_type: row.mime_type,
        size_bytes: column_to_size(row.size_bytes),
    }
}

/// The queued attachments that rows are read as, in their order.
pub open spec fn rows_to_queued_attachments(rows: Seq<QueueAttachmentRowView>) -> Seq<
    QueuedAttachmentView,
> {
    Seq::new(rows.len(), |i: int| row_to_queued_attachment(rows[i]))
}

/// The column value of an optional instant.
pub open spec fn instant_to_column(instant: Option<int>) -> Option<i64> {
    match instant {
        Some(seconds) => Some(seconds as i64),
        None => None,
    }
}

/// The row that a queue entry is written as. Its attachments are rows of
/// their own.
pub open spec fn queue_entry_to_row(entry: MessageQueueEntryView) -> QueueRowView {
    QueueRowView {
        id: entry.id,
        conversation_id: entry.conversation_id,
        message_content: entry.message_content,
        created_at: entry.created_at as i64,
        retry_count: entry.retry_count as i64,
        max_retries: entry.max_retries as i64,
        next_retry_at: instant_to_column(entry.next_retry_at),
        error_message: entry.error_message,
        processing_state: entry.processing_state.tag(),
    }
}

/// The queue entry that a row is read as, without attachments.
pub open spec fn row_to_queue_entry(row: QueueRowView) -> Result<
    MessageQueueEntryView,
    StorageErrorView,
> {
    if !representable(row.created_at as int) {
        Err(StorageErrorView::InvalidTimestamp("created_at"@))
    } else if row.next_retry_at matches Some(seconds) && !representable(seconds as int) {
        Err(StorageErrorView::InvalidTimestamp("next_retry_at"@))
    } else if ProcessingState::parse(row.processing_state) is None {
        Err(StorageErrorView::InvalidEnum("invalid ProcessingState: "@ + row.processing_state))
    } else {
        Ok(
            MessageQueueEntryView {
                id: row.id,
                conversation_id: row.conversation_id,
                message_content: row.message_content,
                attachments: Seq::empty(),
                created_at: row.created_at as int,
                retry_count: row.retry_count as u32,
                max_retries: row.max_retries as u32,
                next_retry_at: match row.next_retry_at {
                    Some(seconds) => Some(seconds as int),
                    None => None,
                },
                error_message: row.error_message,
                processing_state: ProcessingState::parse(row.processing_state)->Some_0,
            },
        )
    }
}

/// Writes an optional instant as a column value.
pub fn encode_optional_timestamp(instant: Option<Timestamp>) -> (column: Option<i64>)
    ensures
        column == instant_to_column(instant.deep_view()),
        column matches Some(seconds) ==> representable(seconds as int),
{
    match instant {
        Some(at) => Some(encode_timestamp(at)),
        None => None,
    }
}

/// Writes a queue entry as a row.
pub fn queue_entry_row(entry: &MessageQueueEntry) -> (row: QueueRow)
    ensures
        row@ == queue_entry_to_row(entry@),
{
    QueueRow {
        id: entry.id.clone(),
        conversation_id: entry.conversation_id.clone(),
        message_content: entry.message_content.clone(),
        created_at: encode_timestamp(entry.created_at),
        retry_count: entry.retry_count as i64,
        max_retries: entry.max_retries as i64,
        next_retry_at: encode_optional_timestamp(entry.next_retry_at),
        error_message: copy_opt_string(&entry.error_message),
        processing_state: entry.processing_state.as_str().to_owned(),
    }
}

/// Writes the queued attachments of an entry as rows.
pub fn queued_attachment_rows(entry: &MessageQueueEntry) -> (rows: Vec<QueueAttachmentRow>)
    ensures
        rows.deep_view() == queued_attachments_to_rows(entry@.id, entry@.attachments),
{
    let mut rows: Vec<QueueAttachmentRow> = Vec::new();
    let mut i: usize = 0;
    while i < entry.attachments.len()
        invariant
            i <= entry.attachments.len(),
            rows.len() == i,
            forall|k: int|
                0 <= k < i ==> rows[k]@ == queued_attachment_to_row(
                    entry@.id,
                    #[trigger] entry.attachments[k]@,
                ),
        decreases entry.attachments.len() - i,
    {
        let attachment = &entry.attachments[i];
        rows.push(
            QueueAttachmentRow {
                queue_id: entry.id.clone(),
                file_path: attachment.file_path.clone(),
                mime_type: copy_opt_string(&attachment.mime_type),
                size_bytes: encode_size(attachment.size_bytes),
            },
        );
        i += 1;
    }
    assert(rows.deep_view() =~= queued_attachments_to_rows(entry@.id, entry@.attachments));
    rows
}

/// Reads rows as queued attachments.
pub fn map_rows_to_queued_attachments(rows: &Vec<QueueAttachmentRow>) -> (attachments: Vec<
    QueuedAttachment,
>)
    ensures
        attachments.deep_view() == rows_to_queued_attachments(rows.deep_view()),
{
    let mut attachments: Vec<QueuedAttachment> = Vec::new();
    let mut i: usize = 0;
    while i < rows.len()
        invariant
            i <= rows.len(),
            attachments.len() == i,
            forall|k: int|
                0 <= k < i ==> attachments[k]@ == row_to_queued_attachment(#[trigger] rows[k]@),
        decreases rows.len() - i,
    {
        let row = &rows[i];
        attachments.push(
            QueuedAttachment {
                file_path: row.file_path.clone(),
                mime_type: copy_opt_string(&row.mime_type),
                size_bytes: decode_size(row.size_bytes),
            },
        );
        i += 1;
    }
    assert(attachments.deep_view() =~= rows_to_queued_attachments(rows.deep_view()));
    attachments
}

/// Reads a row as a queue entry without attachments.
pub fn map_row_to_queue_entry(row: &QueueRow) -> (read: StorageResult<MessageQueueEntry>)
    ensures
        viewed(read) == row_to_queue_entry(row@),
{
    let created_at = decode_timestamp(row.created_at, "created_at")?;
    let next_retry_at = match row.next_retry_at {
        Some(seconds) => Some(decode_timestamp(seconds, "next_retry_at")?),
        None => None,
    };
    let processing_state = match ProcessingState::from_str(row.processing_state.as_str()) {
        Ok(state) => state,
        Err(message) => {
            return Err(StorageError::InvalidEnum(message));
        },
    };
    let entry = MessageQueueEntry {
        id: row.id.clone(),
        conversation_id: row.conversation_id.clone(),
        message_content: row.message_content.clone(),
        attachments: Vec::new(),
        created_at,
        retry_count: #[verifier::truncate]
        (row.retry_count as u32),
        max_retries: #[verifier::truncate]
        (row.max_retries as u32),
        next_retry_at,
        error_message: copy_opt_string(&row.error_message),
        processing_state,
    };
    assert(entry.attachments.deep_view() =~= Seq::empty());
    Ok(entry)
}

/// A queue entry whose timestamps lie in the calendar is read back from its
/// own row, but for its attachments.
pub proof fn lemma_queue_entry_round_trip(entry: MessageQueueEntryView)
    requires
        representable(entry.created_at),
        entry.next_retry_at matches Some(at) ==> representable(at),
    ensures
        row_to_queue_entry(queue_entry_to_row(entry)) == Ok::<
            MessageQueueEntryView,
            StorageErrorView,
        >(MessageQueueEntryView { attachments: Seq::empty(), ..entry }),
{
    entry.processing_state.lemma_tag_round_trip();
}

/// Queued attachments are read back from their own rows.
pub proof fn lemma_queued_attachments_round_trip(
    queue_id: Seq<char>,
    attachments: Seq<QueuedAttachmentView>,
)
    ensures
        rows_to_queued_attachments(queued_attachments_to_rows(queue_id, attachments))
            == attachments,
{
    assert forall|i: int| 0 <= i < attachments.len() implies row_to_queued_attachment(
        queued_attachment_to_row(queue_id, #[trigger] attachments[i]),
    ) == attachments[i] by {
        lemma_size_round_trip(attachments[i].size_bytes);
    }
    assert(rows_to_queued_attachments(queued_attachments_to_rows(queue_id, attachments))
        =~= attachments);
}

} // verus!
