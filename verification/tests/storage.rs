use librechat_core::database::rows::{ConversationRow, MessageRow, QueueRow};
use librechat_core::models::{
    CachePolicy, Conversation, Message, MessageAttachment, MessageQueueEntry, MessageRole,
    Metadata, ProcessingState, QueuedAttachment, SyncState, Timestamp,
};
use librechat_core::services::row_mapping::{
    conversation_row, decode_timestamp, encode_timestamp, map_row_to_conversation,
    map_row_to_message, map_row_to_queue_entry, message_row, queue_entry_row,
};
use librechat_core::services::{StorageError, StorageService};

fn ts(seconds: i64) -> Timestamp {
    Timestamp::from_seconds(seconds).unwrap()
}

fn conversation(id: &str, updated_at: i64) -> Conversation {
    Conversation {
        id: id.to_string(),
        title: format!("title of {}", id),
        created_at: ts(100),
        updated_at: ts(updated_at),
        is_pinned: false,
        is_starred: false,
        server_id: "server_1".to_string(),
        sync_state: SyncState::Local,
        cache_policy: CachePolicy::Lightweight,
        message_count: 2,
        last_message_preview: Some("hi".to_string()),
    }
}

fn attachment(file_id: &str, size: Option<u64>) -> MessageAttachment {
    MessageAttachment {
        file_id: file_id.to_string(),
        filename: format!("{}.bin", file_id),
        mime_type: Some("application/octet-stream".to_string()),
        size_bytes: size,
    }
}

fn message(id: &str, conversation_id: &str, attachments: Vec<MessageAttachment>) -> Message {
    Message {
        id: id.to_string(),
        conversation_id: conversation_id.to_string(),
        content: format!("content of {}", id),
        role: MessageRole::Assistant,
        timestamp: ts(1_700_000_000),
        sync_state: SyncState::Synced,
        attachments,
        metadata: Metadata::parse("{\"model\":\"x\"}").unwrap(),
        processing_state: ProcessingState::Complete,
    }
}

fn entry(id: &str, retry_count: u32, max_retries: u32, next: Option<i64>) -> MessageQueueEntry {
    MessageQueueEntry {
        id: id.to_string(),
        conversation_id: "conv_1".to_string(),
        message_content: "hello".to_string(),
        attachments: vec![],
        created_at: ts(1_000),
        retry_count,
        max_retries,
        next_retry_at: next.map(ts),
        error_message: None,
        processing_state: ProcessingState::Pending,
    }
}

fn seeded() -> StorageService {
    let mut store = StorageService::new();
    store.upsert_conversation(&conversation("conv_1", 200)).unwrap();
    store
}

fn foreign_key() -> StorageError {
    StorageError::Database("FOREIGN KEY constraint failed".to_string())
}

fn over_budget() -> StorageError {
    StorageError::Database("CHECK constraint failed: retry_count <= max_retries".to_string())
}

fn ids(entries: &[MessageQueueEntry]) -> Vec<String> {
    entries.iter().map(|e| e.id.clone()).collect()
}

#[test]
fn a_new_store_is_empty() {
    let store = StorageService::new();
    assert_eq!(store.get_conversation("conv_1"), Ok(None));
    assert_eq!(store.get_message("m1"), Ok(None));
    assert_eq!(store.list_conversations(10, 0), Ok(vec![]));
    assert_eq!(store.list_pending_queue(ts(0)), Ok(vec![]));
    assert!(store.conversation_rows().is_empty());
    assert!(store.message_rows().is_empty());
    assert!(store.attachment_rows().is_empty());
    assert!(store.queue_rows().is_empty());
    assert!(store.queue_attachment_rows().is_empty());
}

#[test]
fn a_conversation_is_read_back_as_written() {
    let mut store = StorageService::new();
    let c = conversation("conv_1", 200);
    assert_eq!(store.upsert_conversation(&c), Ok(()));
    assert_eq!(store.get_conversation("conv_1"), Ok(Some(c)));
    assert_eq!(store.get_conversation("conv_2"), Ok(None));
    assert_eq!(store.get_conversation("CONV_1"), Ok(None));
}

#[test]
fn overwriting_a_conversation_keeps_its_creation_time_and_its_place() {
    let mut store = StorageService::new();
    store.upsert_conversation(&conversation("conv_1", 200)).unwrap();
    store.upsert_conversation(&conversation("conv_2", 300)).unwrap();
    let mut changed = conversation("conv_1", 50);
    changed.created_at = ts(999);
    changed.title = "renamed".to_string();
    changed.sync_state = SyncState::Modified;
    changed.message_count = 7;
    changed.last_message_preview = None;
    store.upsert_conversation(&changed).unwrap();
    let read = store.get_conversation("conv_1").unwrap().unwrap();
    assert_eq!(read.created_at, ts(100));
    assert_eq!(read.updated_at, ts(200));
    assert_eq!(read.title, "renamed");
    assert_eq!(read.sync_state, SyncState::Modified);
    assert_eq!(read.message_count, 7);
    assert_eq!(read.last_message_preview, None);
    let rows = store.conversation_rows();
    assert_eq!(rows.len(), 2);
    assert_eq!(rows[0].id, "conv_1");
    assert_eq!(rows[1].id, "conv_2");
}

#[test]
fn the_update_time_of_a_conversation_never_goes_back() {
    let mut store = StorageService::new();
    store.upsert_conversation(&conversation("conv_1", 200)).unwrap();
    for (written, stored) in [(199, 200), (200, 200), (201, 201), (0, 201), (-5, 201), (300, 300)] {
        store.upsert_conversation(&conversation("conv_1", written)).unwrap();
        assert_eq!(store.get_conversation("conv_1").unwrap().unwrap().updated_at, ts(stored));
        assert_eq!(store.conversation_rows().len(), 1);
    }
    store.upsert_conversation(&conversation("conv_2", 5)).unwrap();
    assert_eq!(store.get_conversation("conv_2").unwrap().unwrap().updated_at, ts(5));
    assert_eq!(store.get_conversation("conv_1").unwrap().unwrap().updated_at, ts(300));
}

#[test]
fn conversations_are_listed_newest_first_in_pages() {
    let mut store = StorageService::new();
    store.upsert_conversation(&conversation("a", 10)).unwrap();
    store.upsert_conversation(&conversation("b", 30)).unwrap();
    store.upsert_conversation(&conversation("c", 20)).unwrap();
    store.upsert_conversation(&conversation("d", 30)).unwrap();
    store.upsert_conversation(&conversation("e", 5)).unwrap();
    let order = |page: Vec<Conversation>| page.into_iter().map(|c| c.id).collect::<Vec<_>>();
    assert_eq!(order(store.list_conversations(10, 0).unwrap()), ["b", "d", "c", "a", "e"]);
    assert_eq!(order(store.list_conversations(2, 0).unwrap()), ["b", "d"]);
    assert_eq!(order(store.list_conversations(2, 1).unwrap()), ["d", "c"]);
    assert_eq!(order(store.list_conversations(2, 4).unwrap()), ["e"]);
    assert_eq!(order(store.list_conversations(2, 5).unwrap()), Vec::<String>::new());
    assert_eq!(order(store.list_conversations(2, 50).unwrap()), Vec::<String>::new());
    assert_eq!(order(store.list_conversations(0, 0).unwrap()), Vec::<String>::new());
    assert_eq!(
        order(store.list_conversations(u32::MAX, 0).unwrap()),
        ["b", "d", "c", "a", "e"]
    );
    assert_eq!(order(store.list_conversations(u32::MAX, u32::MAX).unwrap()), Vec::<String>::new());
}

#[test]
fn a_message_is_read_back_with_its_attachments_in_order() {
    let mut store = seeded();
    let m = message("m1", "conv_1", vec![attachment("f1", Some(10)), attachment("f2", None)]);
    assert_eq!(store.upsert_message(&m), Ok(()));
    assert_eq!(store.get_message("m1"), Ok(Some(m)));
    assert_eq!(store.get_message("m2"), Ok(None));
}

#[test]
fn writing_a_message_twice_leaves_one_row_and_the_same_attachments() {
    let mut store = seeded();
    let other = message("m0", "conv_1", vec![attachment("f0", Some(1))]);
    let m = message("m1", "conv_1", vec![attachment("f1", Some(10)), attachment("f2", None)]);
    store.upsert_message(&other).unwrap();
    store.upsert_message(&m).unwrap();
    let rows_once = (store.message_rows().clone(), store.attachment_rows().clone());
    store.upsert_message(&m).unwrap();
    assert_eq!(store.message_rows(), &rows_once.0);
    assert_eq!(store.attachment_rows(), &rows_once.1);
    assert_eq!(store.message_rows().iter().filter(|row| row.id == "m1").count(), 1);
    assert_eq!(store.attachment_rows().iter().filter(|row| row.message_id == "m1").count(), 2);
    assert_eq!(store.get_message("m1"), Ok(Some(m)));
    assert_eq!(store.get_message("m0"), Ok(Some(other)));
}

#[test]
fn overwriting_a_message_replaces_its_attachments_and_keeps_its_conversation() {
    let mut store = seeded();
    store
        .upsert_message(&message("m1", "conv_1", vec![attachment("f1", Some(1)), attachment("f2", None)]))
        .unwrap();
    store.upsert_message(&message("m2", "conv_1", vec![attachment("g1", None)])).unwrap();
    let mut changed = message("m1", "conv_9", vec![attachment("f3", Some(3))]);
    changed.content = "edited".to_string();
    changed.role = MessageRole::User;
    store.upsert_message(&changed).unwrap();
    let read = store.get_message("m1").unwrap().unwrap();
    assert_eq!(read.conversation_id, "conv_1");
    assert_eq!(read.content, "edited");
    assert_eq!(read.role, MessageRole::User);
    assert_eq!(read.attachments, vec![attachment("f3", Some(3))]);
    assert_eq!(store.get_message("m2").unwrap().unwrap().attachments, vec![attachment("g1", None)]);
    store.upsert_message(&message("m1", "conv_1", vec![])).unwrap();
    assert_eq!(store.get_message("m1").unwrap().unwrap().attachments, vec![]);
    assert_eq!(store.attachment_rows().len(), 1);
}

#[test]
fn a_new_message_without_its_conversation_is_refused_and_nothing_is_written() {
    let mut store = seeded();
    store.upsert_message(&message("m1", "conv_1", vec![attachment("f1", Some(1))])).unwrap();
    let before = (store.message_rows().clone(), store.attachment_rows().clone());
    assert_eq!(
        store.upsert_message(&message("m2", "conv_missing", vec![attachment("g1", None)])),
        Err(foreign_key())
    );
    assert_eq!(store.upsert_message(&message("m3", "", vec![])), Err(foreign_key()));
    assert_eq!(store.message_rows(), &before.0);
    assert_eq!(store.attachment_rows(), &before.1);
    assert_eq!(store.get_message("m2"), Ok(None));
    let mut empty = StorageService::new();
    assert_eq!(empty.upsert_message(&message("m1", "conv_1", vec![])), Err(foreign_key()));
    assert!(empty.message_rows().is_empty());
    assert_eq!(store.upsert_message(&message("m1", "conv_missing", vec![])), Ok(()));
    assert_eq!(store.get_message("m1").unwrap().unwrap().conversation_id, "conv_1");
}

#[test]
fn a_huge_attachment_size_survives_the_signed_column() {
    let mut store = seeded();
    let m = message("m1", "conv_1", vec![attachment("f1", Some(u64::MAX)), attachment("f2", Some(0))]);
    store.upsert_message(&m).unwrap();
    assert_eq!(store.attachment_rows()[0].size_bytes, Some(-1));
    assert_eq!(store.get_message("m1"), Ok(Some(m)));
}

#[test]
fn removing_a_conversation_takes_what_it_owns_with_it() {
    let mut store = StorageService::new();
    store.upsert_conversation(&conversation("conv_1", 1)).unwrap();
    store.upsert_conversation(&conversation("conv_2", 2)).unwrap();
    store.upsert_message(&message("m1", "conv_1", vec![attachment("f1", None)])).unwrap();
    store.upsert_message(&message("m2", "conv_2", vec![attachment("f2", None)])).unwrap();
    let mut queued = entry("q1", 0, 3, None);
    queued.attachments.push(QueuedAttachment {
        file_path: "/tmp/a".to_string(),
        mime_type: None,
        size_bytes: Some(4),
    });
    store.enqueue_message(&queued).unwrap();
    let mut kept = entry("q2", 0, 3, None);
    kept.conversation_id = "conv_2".to_string();
    kept.attachments.push(QueuedAttachment {
        file_path: "/tmp/b".to_string(),
        mime_type: None,
        size_bytes: None,
    });
    store.enqueue_message(&kept).unwrap();

    assert_eq!(store.remove_conversation("conv_1"), Ok(()));
    assert_eq!(store.get_conversation("conv_1"), Ok(None));
    assert_eq!(store.get_message("m1"), Ok(None));
    assert!(store.get_conversation("conv_2").unwrap().is_some());
    assert!(store.get_message("m2").unwrap().is_some());
    assert_eq!(store.attachment_rows().len(), 1);
    assert_eq!(store.attachment_rows()[0].message_id, "m2");
    assert_eq!(store.queue_rows().len(), 1);
    assert_eq!(store.queue_rows()[0].id, "q2");
    assert_eq!(store.queue_attachment_rows().len(), 1);
    assert_eq!(store.queue_attachment_rows()[0].queue_id, "q2");
    assert_eq!(store.remove_conversation("conv_1"), Ok(()));
    assert_eq!(store.conversation_rows().len(), 1);
}

#[test]
fn pending_entries_have_retries_left_and_no_bar_ahead() {
    let mut store = seeded();
    let now = 1_700_000_000;
    store.enqueue_message(&entry("fresh", 0, 3, None)).unwrap();
    store.enqueue_message(&entry("exhausted", 3, 3, None)).unwrap();
    store.enqueue_message(&entry("exhausted_and_due", 3, 3, Some(now - 100))).unwrap();
    assert_eq!(store.enqueue_message(&entry("overdrawn", 5, 3, None)), Err(over_budget()));
    store.enqueue_message(&entry("due", 1, 3, Some(now - 1))).unwrap();
    store.enqueue_message(&entry("due_now", 1, 3, Some(now))).unwrap();
    store.enqueue_message(&entry("barred", 1, 3, Some(now + 600))).unwrap();
    store.enqueue_message(&entry("no_budget", 0, 0, None)).unwrap();
    assert_eq!(ids(&store.list_pending_queue(ts(now)).unwrap()), ["fresh", "due", "due_now"]);
    assert_eq!(
        ids(&store.list_pending_queue(ts(now + 599)).unwrap()),
        ["fresh", "due", "due_now"]
    );
    assert_eq!(
        ids(&store.list_pending_queue(ts(now + 600)).unwrap()),
        ["fresh", "due", "due_now", "barred"]
    );
    assert_eq!(ids(&store.list_pending_queue(ts(now - 1)).unwrap()), ["fresh", "due"]);
    assert_eq!(ids(&store.list_pending_queue(ts(0)).unwrap()), ["fresh"]);
}

#[test]
fn an_entry_beyond_its_budget_or_without_its_conversation_is_refused() {
    let mut store = seeded();
    store.enqueue_message(&entry("q1", 1, 3, None)).unwrap();
    let before = (store.queue_rows().clone(), store.queue_attachment_rows().clone());
    assert_eq!(store.enqueue_message(&entry("q2", 4, 3, None)), Err(over_budget()));
    assert_eq!(store.enqueue_message(&entry("q1", 4, 3, None)), Err(over_budget()));
    assert_eq!(store.enqueue_message(&entry("q3", 1, 0, None)), Err(over_budget()));
    let mut orphan = entry("q4", 0, 3, None);
    orphan.conversation_id = "conv_missing".to_string();
    orphan.attachments.push(QueuedAttachment {
        file_path: "/tmp/a".to_string(),
        mime_type: None,
        size_bytes: None,
    });
    assert_eq!(store.enqueue_message(&orphan), Err(foreign_key()));
    let mut both = entry("q5", 9, 3, None);
    both.conversation_id = "conv_missing".to_string();
    assert_eq!(store.enqueue_message(&both), Err(over_budget()));
    assert_eq!(store.queue_rows(), &before.0);
    assert_eq!(store.queue_attachment_rows(), &before.1);
    assert_eq!(store.enqueue_message(&entry("q6", 3, 3, None)), Ok(()));
    assert_eq!(store.enqueue_message(&entry("q7", 0, 0, None)), Ok(()));
    orphan.id = "q1".to_string();
    assert_eq!(store.enqueue_message(&orphan), Ok(()));
    assert_eq!(store.queue_rows()[0].conversation_id, "conv_1");
    for row in store.queue_rows() {
        assert!(row.retry_count <= row.max_retries);
    }
}

#[test]
fn pending_entries_come_with_their_queued_attachments() {
    let mut store = seeded();
    let mut first = entry("q1", 0, 3, None);
    first.attachments = vec![
        QueuedAttachment {
            file_path: "/tmp/a.png".to_string(),
            mime_type: Some("image/png".to_string()),
            size_bytes: Some(10),
        },
        QueuedAttachment { file_path: "/tmp/b".to_string(), mime_type: None, size_bytes: None },
    ];
    let second = entry("q2", 0, 3, None);
    store.enqueue_message(&first).unwrap();
    store.enqueue_message(&second).unwrap();
    assert_eq!(store.list_pending_queue(ts(5_000)), Ok(vec![first.clone(), second]));
    first.attachments.truncate(1);
    store.enqueue_message(&first).unwrap();
    let listed = store.list_pending_queue(ts(5_000)).unwrap();
    assert_eq!(listed[0].attachments.len(), 1);
    assert_eq!(store.queue_attachment_rows().len(), 1);
}

#[test]
fn queueing_again_keeps_conversation_and_creation_time() {
    let mut store = seeded();
    store.enqueue_message(&entry("q1", 0, 3, None)).unwrap();
    let mut again = entry("q1", 2, 5, Some(77));
    again.conversation_id = "conv_other".to_string();
    again.created_at = ts(9_999);
    again.message_content = "edited".to_string();
    again.error_message = Some("boom".to_string());
    again.processing_state = ProcessingState::Failed;
    store.enqueue_message(&again).unwrap();
    let rows = store.queue_rows();
    assert_eq!(rows.len(), 1);
    assert_eq!(rows[0].conversation_id, "conv_1");
    assert_eq!(rows[0].created_at, 1_000);
    assert_eq!(rows[0].message_content, "edited");
    assert_eq!(rows[0].retry_count, 2);
    assert_eq!(rows[0].max_retries, 5);
    assert_eq!(rows[0].next_retry_at, Some(77));
    assert_eq!(rows[0].error_message.as_deref(), Some("boom"));
    assert_eq!(rows[0].processing_state, "failed");
}

#[test]
fn deleting_a_queue_entry_takes_its_attachments() {
    let mut store = seeded();
    let mut first = entry("q1", 0, 3, None);
    first.attachments.push(QueuedAttachment {
        file_path: "/tmp/a".to_string(),
        mime_type: None,
        size_bytes: None,
    });
    store.enqueue_message(&first).unwrap();
    store.enqueue_message(&entry("q2", 0, 3, None)).unwrap();
    assert_eq!(store.delete_queue_entry("q1"), Ok(()));
    assert_eq!(ids(&store.list_pending_queue(ts(5_000)).unwrap()), ["q2"]);
    assert!(store.queue_attachment_rows().is_empty());
    assert_eq!(store.delete_queue_entry("q1"), Ok(()));
    assert_eq!(store.queue_rows().len(), 1);
}

#[test]
fn retry_bookkeeping_is_rewritten_in_place() {
    let mut store = seeded();
    store.enqueue_message(&entry("q1", 0, 3, None)).unwrap();
    store.enqueue_message(&entry("q2", 0, 3, None)).unwrap();
    assert_eq!(
        store.update_queue_retry(
            "q1",
            1,
            Some(ts(2_000)),
            Some("offline".to_string()),
            ProcessingState::Failed
        ),
        Ok(())
    );
    let rows = store.queue_rows();
    assert_eq!(rows[0].id, "q1");
    assert_eq!(rows[0].retry_count, 1);
    assert_eq!(rows[0].max_retries, 3);
    assert_eq!(rows[0].next_retry_at, Some(2_000));
    assert_eq!(rows[0].error_message.as_deref(), Some("offline"));
    assert_eq!(rows[0].processing_state, "failed");
    assert_eq!(rows[0].message_content, "hello");
    assert_eq!(rows[1].retry_count, 0);
    assert_eq!(rows[1].processing_state, "pending");
    let before = store.queue_rows().clone();
    assert_eq!(store.update_queue_retry("missing", 9, None, None, ProcessingState::Cancelled), Ok(()));
    assert_eq!(store.queue_rows(), &before);
    assert_eq!(
        store.update_queue_retry("q2", 4, None, None, ProcessingState::Failed),
        Err(over_budget())
    );
    assert_eq!(
        store.update_queue_retry("q1", u32::MAX, None, None, ProcessingState::Failed),
        Err(over_budget())
    );
    assert_eq!(store.queue_rows(), &before);
    assert_eq!(store.update_queue_retry("q2", 3, None, None, ProcessingState::Pending), Ok(()));
    assert_eq!(store.update_queue_retry("q2", 0, None, None, ProcessingState::Pending), Ok(()));
    assert_eq!(ids(&store.list_pending_queue(ts(1_999)).unwrap()), ["q2"]);
    assert_eq!(ids(&store.list_pending_queue(ts(2_000)).unwrap()), ["q1", "q2"]);
}

#[test]
fn timestamps_are_columns_of_seconds() {
    assert_eq!(encode_timestamp(ts(1_700_000_000)), 1_700_000_000);
    assert_eq!(decode_timestamp(1_700_000_000, "created_at"), Ok(ts(1_700_000_000)));
    assert_eq!(decode_timestamp(-5, "created_at"), Ok(ts(-5)));
    assert_eq!(
        decode_timestamp(i64::MAX, "updated_at"),
        Err(StorageError::InvalidTimestamp("updated_at"))
    );
    assert_eq!(
        decode_timestamp(i64::MIN, "next_retry_at"),
        Err(StorageError::InvalidTimestamp("next_retry_at"))
    );
}

#[test]
fn conversation_rows_hold_tags_and_seconds() {
    let row = conversation_row(&conversation("conv_1", 200));
    assert_eq!(
        row,
        ConversationRow {
            id: "conv_1".to_string(),
            title: "title of conv_1".to_string(),
            created_at: 100,
            updated_at: 200,
            is_pinned: false,
            is_starred: false,
            server_id: "server_1".to_string(),
            sync_state: "local".to_string(),
            cache_policy: "lightweight".to_string(),
            message_count: 2,
            last_message_preview: Some("hi".to_string()),
        }
    );
    assert_eq!(map_row_to_conversation(&row), Ok(conversation("conv_1", 200)));
}

#[test]
fn a_conversation_row_is_refused_at_its_first_bad_column() {
    let good = conversation_row(&conversation("conv_1", 200));
    let mut row = good.clone();
    row.created_at = i64::MAX;
    row.updated_at = i64::MAX;
    row.sync_state = "nope".to_string();
    assert_eq!(map_row_to_conversation(&row), Err(StorageError::InvalidTimestamp("created_at")));
    row.created_at = 1;
    assert_eq!(map_row_to_conversation(&row), Err(StorageError::InvalidTimestamp("updated_at")));
    row.updated_at = 2;
    row.cache_policy = "nope either".to_string();
    assert_eq!(
        map_row_to_conversation(&row),
        Err(StorageError::InvalidEnum("invalid SyncState: nope".to_string()))
    );
    row.sync_state = "synced".to_string();
    assert_eq!(
        map_row_to_conversation(&row),
        Err(StorageError::InvalidEnum("invalid CachePolicy: nope either".to_string()))
    );
    row.cache_policy = "extended".to_string();
    assert!(map_row_to_conversation(&row).is_ok());
}

#[test]
fn a_message_row_is_refused_at_its_first_bad_column() {
    let good = message_row(&message("m1", "conv_1", vec![]));
    assert_eq!(
        good,
        MessageRow {
            id: "m1".to_string(),
            conversation_id: "conv_1".to_string(),
            content: "content of m1".to_string(),
            role: "assistant".to_string(),
            timestamp: 1_700_000_000,
            sync_state: "synced".to_string(),
            metadata: "{\"model\":\"x\"}".to_string(),
            processing_state: "complete".to_string(),
        }
    );
    assert_eq!(map_row_to_message(&good), Ok(message("m1", "conv_1", vec![])));
    let mut row = good.clone();
    row.metadata = "[]".to_string();
    row.role = "robot".to_string();
    row.timestamp = i64::MIN;
    row.sync_state = "?".to_string();
    row.processing_state = "?".to_string();
    assert!(matches!(map_row_to_message(&row), Err(StorageError::Serialization(_))));
    row.metadata = "{}".to_string();
    assert_eq!(
        map_row_to_message(&row),
        Err(StorageError::InvalidEnum("invalid MessageRole: robot".to_string()))
    );
    row.role = "user".to_string();
    assert_eq!(map_row_to_message(&row), Err(StorageError::InvalidTimestamp("timestamp")));
    row.timestamp = 0;
    assert_eq!(
        map_row_to_message(&row),
        Err(StorageError::InvalidEnum("invalid SyncState: ?".to_string()))
    );
    row.sync_state = "local".to_string();
    assert_eq!(
        map_row_to_message(&row),
        Err(StorageError::InvalidEnum("invalid ProcessingState: ?".to_string()))
    );
}

#[test]
fn a_queue_row_is_refused_at_its_first_bad_column() {
    let good = queue_entry_row(&entry("q1", 1, 3, Some(50)));
    assert_eq!(
        good,
        QueueRow {
            id: "q1".to_string(),
            conversation_id: "conv_1".to_string(),
            message_content: "hello".to_string(),
            created_at: 1_000,
            retry_count: 1,
            max_retries: 3,
            next_retry_at: Some(50),
            error_message: None,
            processing_state: "pending".to_string(),
        }
    );
    assert_eq!(map_row_to_queue_entry(&good), Ok(entry("q1", 1, 3, Some(50))));
    let mut row = good.clone();
    row.created_at = i64::MAX;
    row.next_retry_at = Some(i64::MAX);
    row.processing_state = "stuck".to_string();
    assert_eq!(map_row_to_queue_entry(&row), Err(StorageError::InvalidTimestamp("created_at")));
    row.created_at = 0;
    assert_eq!(map_row_to_queue_entry(&row), Err(StorageError::InvalidTimestamp("next_retry_at")));
    row.next_retry_at = None;
    assert_eq!(
        map_row_to_queue_entry(&row),
        Err(StorageError::InvalidEnum("invalid ProcessingState: stuck".to_string()))
    );
}

#[test]
fn storage_errors_in_words() {
    assert_eq!(StorageError::Database("locked".to_string()).message(), "database error: locked");
    assert_eq!(
        StorageError::InvalidEnum("invalid Theme: x".to_string()).message(),
        "invalid enum value: invalid Theme: x"
    );
    assert_eq!(
        StorageError::Serialization("eof".to_string()).message(),
        "serialization error: eof"
    );
    assert_eq!(
        StorageError::InvalidTimestamp("created_at").message(),
        "invalid timestamp for created_at"
    );
}

#[test]
fn restored_rows_are_read_as_they_are() {
    let mut store = StorageService::new();
    let mut bad = conversation_row(&conversation("conv_1", 200));
    bad.sync_state = "unheard of".to_string();
    store.restore_conversation_row(bad);
    store.restore_conversation_row(conversation_row(&conversation("conv_2", 300)));
    assert_eq!(
        store.get_conversation("conv_1"),
        Err(StorageError::InvalidEnum("invalid SyncState: unheard of".to_string()))
    );
    assert_eq!(store.get_conversation("conv_2"), Ok(Some(conversation("conv_2", 300))));
    assert_eq!(
        store.list_conversations(10, 0),
        Err(StorageError::InvalidEnum("invalid SyncState: unheard of".to_string()))
    );
    assert_eq!(store.list_conversations(1, 0), Ok(vec![conversation("conv_2", 300)]));
    store.restore_conversation_row(conversation_row(&conversation("conv_1", 250)));
    assert_eq!(store.conversation_rows().len(), 2);
    assert_eq!(store.conversation_rows()[0].id, "conv_1");
    assert_eq!(store.get_conversation("conv_1"), Ok(Some(conversation("conv_1", 250))));

    let mut message = message_row(&message("m1", "conv_1", vec![]));
    message.timestamp = i64::MAX;
    store.restore_message_row(message);
    assert_eq!(store.get_message("m1"), Err(StorageError::InvalidTimestamp("timestamp")));
}

#[test]
fn restored_attachments_belong_to_the_message_they_name() {
    let mut store = seeded();
    store.upsert_message(&message("m1", "conv_1", vec![attachment("f1", Some(1))])).unwrap();
    let rows: Vec<_> = store.attachment_rows().clone();
    let mut restored = StorageService::new();
    restored.restore_message_row(store.message_rows()[0].clone());
    for row in rows {
        restored.restore_attachment_row(row);
    }
    assert_eq!(restored.get_message("m1"), store.get_message("m1"));
    assert_eq!(restored.get_message("m1").unwrap().unwrap().attachments.len(), 1);
}

#[test]
fn a_queue_row_with_counters_out_of_range_is_not_taken() {
    let mut store = StorageService::new();
    let good = queue_entry_row(&entry("q1", 1, 3, None));
    let mut negative = good.clone();
    negative.id = "q2".to_string();
    negative.retry_count = -1;
    let mut huge = good.clone();
    huge.id = "q3".to_string();
    huge.max_retries = i64::from(u32::MAX) + 1;
    let mut top = good.clone();
    top.id = "q4".to_string();
    top.retry_count = i64::from(u32::MAX) - 1;
    top.max_retries = i64::from(u32::MAX);
    let mut spent = good.clone();
    spent.id = "q5".to_string();
    spent.retry_count = 4;
    assert!(!store.restore_queue_row(spent));
    assert!(store.restore_queue_row(good));
    assert!(!store.restore_queue_row(negative));
    assert!(!store.restore_queue_row(huge));
    assert!(store.restore_queue_row(top));
    assert_eq!(ids(&store.list_pending_queue(ts(0)).unwrap()), ["q1", "q4"]);
    let mut bad_state = queue_entry_row(&entry("q1", 0, 3, None));
    bad_state.processing_state = "lost".to_string();
    assert!(store.restore_queue_row(bad_state));
    assert_eq!(store.queue_rows().len(), 2);
    assert_eq!(
        store.list_pending_queue(ts(0)),
        Err(StorageError::InvalidEnum("invalid ProcessingState: lost".to_string()))
    );
}
