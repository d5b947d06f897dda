use std::cell::{Cell, RefCell};

use librechat_core::models::{
    CachePolicy, Conversation, MessageQueueEntry, MessageRole, ProcessingState, QueuedAttachment,
    SyncState, Timestamp,
};
use librechat_core::services::conversations_service::{ConversationDetail, ConversationSummary};
use librechat_core::services::messages_service::{
    Message as RemoteMessage, MessageFile, MessageResponse, SendMessageRequest,
};
use librechat_core::services::sync_service::{
    map_remote_conversation, map_remote_message, parse_timestamp, replay_request,
    RETRY_BACKOFF_SECONDS,
};
use librechat_core::services::{ApiError, StorageError, StorageService, SyncError, SyncService};

fn ts(seconds: i64) -> Timestamp {
    Timestamp::from_seconds(seconds).unwrap()
}

fn remote_message(id: &str, sender: &str, created_at: &str) -> RemoteMessage {
    RemoteMessage {
        message_id: id.to_string(),
        conversation_id: "conv_1".to_string(),
        text: format!("text of {}", id),
        sender: sender.to_string(),
        created_at: created_at.to_string(),
        is_created_by_user: sender == "user",
        error: false,
        parent_message_id: None,
        model: None,
        token_count: None,
        finish_reason: None,
        files: vec![],
    }
}

fn summary() -> ConversationSummary {
    ConversationSummary {
        conversation_id: "conv_1".to_string(),
        title: "Trip".to_string(),
        created_at: "2024-01-01T00:00:00Z".to_string(),
        updated_at: "2024-01-02T00:00:00Z".to_string(),
        is_pinned: true,
        is_starred: false,
    }
}

fn fixture() -> ConversationDetail {
    ConversationDetail {
        summary: summary(),
        messages: vec![
            remote_message("m1", "user", "2024-01-01T00:00:01Z"),
            remote_message("m2", "assistant", "2024-01-01T00:00:02Z"),
        ],
    }
}

fn response() -> MessageResponse {
    MessageResponse { message: remote_message("sent", "user", "2024-01-01T00:00:00Z"), conversation: None }
}

fn seeded() -> StorageService {
    let mut storage = StorageService::new();
    storage
        .upsert_conversation(&Conversation {
            id: "conv_1".to_string(),
            title: "Trip".to_string(),
            created_at: ts(10),
            updated_at: ts(20),
            is_pinned: false,
            is_starred: false,
            server_id: "server_1".to_string(),
            sync_state: SyncState::Local,
            cache_policy: CachePolicy::Balanced,
            message_count: 0,
            last_message_preview: None,
        })
        .unwrap();
    storage
}

fn queued(id: &str) -> MessageQueueEntry {
    MessageQueueEntry {
        id: id.to_string(),
        conversation_id: "conv_1".to_string(),
        message_content: "hello".to_string(),
        attachments: vec![],
        created_at: ts(1_000),
        retry_count: 0,
        max_retries: 3,
        next_retry_at: None,
        error_message: None,
        processing_state: ProcessingState::Pending,
    }
}

#[test]
fn outbox_entry_fails_waits_and_is_delivered() {
    let now = 1_700_000_000;
    let mut storage = seeded();
    storage.enqueue_message(&queued("q1")).unwrap();
    let mut sync = SyncService::new(storage);

    let seen: RefCell<Vec<(String, String)>> = RefCell::new(vec![]);
    let failing = |request: &SendMessageRequest| -> Result<MessageResponse, ApiError> {
        seen.borrow_mut().push((request.conversation_id.clone(), request.text.clone()));
        Err(ApiError::Network("offline".to_string()))
    };
    assert_eq!(sync.process_outbox(ts(now), failing), Ok(()));
    assert_eq!(seen.borrow().as_slice(), [("conv_1".to_string(), "hello".to_string())]);
    {
        let rows = sync.storage().queue_rows();
        assert_eq!(rows.len(), 1);
        assert_eq!(rows[0].id, "q1");
        assert_eq!(rows[0].retry_count, 1);
        assert_eq!(rows[0].max_retries, 3);
        assert_eq!(rows[0].next_retry_at, Some(now + 300));
        assert_eq!(rows[0].error_message.as_deref(), Some("api error: network error: offline"));
        assert_eq!(rows[0].processing_state, "failed");
    }

    let calls = Cell::new(0);
    let counting = |_: &SendMessageRequest| -> Result<MessageResponse, ApiError> {
        calls.set(calls.get() + 1);
        Err(ApiError::Network("offline".to_string()))
    };
    assert_eq!(sync.process_outbox(ts(now), counting), Ok(()));
    assert_eq!(calls.get(), 0);
    assert_eq!(sync.storage().queue_rows()[0].retry_count, 1);
    assert_eq!(sync.storage().queue_rows()[0].next_retry_at, Some(now + 300));

    let succeeding = |_: &SendMessageRequest| -> Result<MessageResponse, ApiError> {
        calls.set(calls.get() + 1);
        Ok(response())
    };
    assert_eq!(sync.process_outbox(ts(now + 301), succeeding), Ok(()));
    assert_eq!(calls.get(), 1);
    assert!(sync.storage().queue_rows().is_empty());
    assert_eq!(sync.process_outbox(ts(now + 10_000), succeeding), Ok(()));
    assert_eq!(calls.get(), 1);
}

#[test]
fn sync_pulls_a_conversation_and_its_two_messages() {
    let mut sync = SyncService::new(StorageService::new());
    let asked: RefCell<Vec<String>> = RefCell::new(vec![]);
    let done = sync.sync_conversation("server_1", "conv_1", |id: &str| {
        asked.borrow_mut().push(id.to_string());
        Ok(fixture())
    });
    assert_eq!(done, Ok(()));
    assert_eq!(asked.borrow().as_slice(), ["conv_1".to_string()]);

    let store = sync.storage();
    let conversations = store.list_conversations(10, 0).unwrap();
    assert_eq!(conversations.len(), 1);
    let c = &conversations[0];
    assert_eq!(c.id, "conv_1");
    assert_eq!(c.title, "Trip");
    assert_eq!(c.server_id, "server_1");
    assert_eq!(c.sync_state, SyncState::Synced);
    assert_eq!(c.cache_policy, CachePolicy::Balanced);
    assert_eq!(c.created_at, ts(1_704_067_200));
    assert_eq!(c.updated_at, ts(1_704_153_600));
    assert!(c.is_pinned);
    assert!(!c.is_starred);
    assert_eq!(c.message_count, 0);
    assert_eq!(c.last_message_preview, None);

    assert_eq!(store.message_rows().len(), 2);
    let m1 = store.get_message("m1").unwrap().unwrap();
    let m2 = store.get_message("m2").unwrap().unwrap();
    assert_eq!(m1.role, MessageRole::User);
    assert_eq!(m2.role, MessageRole::Assistant);
    for m in [&m1, &m2] {
        assert_eq!(m.processing_state, ProcessingState::Complete);
        assert_eq!(m.sync_state, SyncState::Synced);
        assert_eq!(m.conversation_id, "conv_1");
        assert_eq!(m.metadata.as_str(), "{}");
    }
    assert_eq!(m1.content, "text of m1");
    assert_eq!(m1.timestamp, ts(1_704_067_201));
    assert_eq!(m2.timestamp, ts(1_704_067_202));
}

#[test]
fn syncing_again_overwrites_and_resets_what_only_the_client_knows() {
    let mut sync = SyncService::new(StorageService::new());
    sync.sync_conversation("server_1", "conv_1", |_: &str| Ok(fixture())).unwrap();
    let mut storage = sync.into_storage();
    let mut local = storage.get_conversation("conv_1").unwrap().unwrap();
    local.cache_policy = CachePolicy::Extended;
    local.sync_state = SyncState::Modified;
    local.title = "edited locally".to_string();
    storage.upsert_conversation(&local).unwrap();
    let mut sync = SyncService::new(storage);
    sync.sync_conversation("server_1", "conv_1", |_: &str| Ok(fixture())).unwrap();
    let c = sync.storage().get_conversation("conv_1").unwrap().unwrap();
    assert_eq!(c.cache_policy, CachePolicy::Balanced);
    assert_eq!(c.sync_state, SyncState::Synced);
    assert_eq!(c.title, "Trip");
    assert_eq!(sync.storage().conversation_rows().len(), 1);
    assert_eq!(sync.storage().message_rows().len(), 2);
}

#[test]
fn a_refusal_of_the_service_leaves_the_store_untouched() {
    let mut sync = SyncService::new(StorageService::new());
    let done = sync.sync_conversation("server_1", "conv_1", |_: &str| {
        Err(ApiError::Http { status: 404, message: "no such conversation".to_string() })
    });
    assert_eq!(
        done,
        Err(SyncError::Api(ApiError::Http {
            status: 404,
            message: "no such conversation".to_string()
        }))
    );
    assert!(sync.storage().conversation_rows().is_empty());
    assert!(sync.storage().message_rows().is_empty());
}

#[test]
fn a_malformed_report_leaves_the_store_untouched() {
    let mut bad_time = fixture();
    bad_time.messages[1].created_at = "yesterday".to_string();
    let mut bad_sender = fixture();
    bad_sender.messages[0].sender = "robot".to_string();
    let mut bad_summary = fixture();
    bad_summary.summary.updated_at = "2024-01-02".to_string();
    let cases = [
        (bad_time, "invalid created_at timestamp: yesterday"),
        (bad_sender, "unexpected sender: robot"),
        (bad_summary, "invalid updated_at timestamp: 2024-01-02"),
    ];
    for (remote, complaint) in cases {
        let mut sync = SyncService::new(StorageService::new());
        let done = sync.merge_remote_conversation("server_1", &remote);
        assert_eq!(done, Err(SyncError::InvalidData(complaint.to_string())));
        assert!(sync.storage().conversation_rows().is_empty());
        assert!(sync.storage().message_rows().is_empty());
    }
}

#[test]
fn remote_files_become_attachments() {
    let mut remote = remote_message("m1", "system", "2024-01-01T00:00:00+00:00");
    remote.files = vec![
        MessageFile {
            file_id: "f1".to_string(),
            filename: "a.png".to_string(),
            file_type: Some("image/png".to_string()),
            size: Some(7),
        },
        MessageFile { file_id: "f2".to_string(), filename: "b".to_string(), file_type: None, size: None },
    ];
    let m = map_remote_message(&remote).unwrap();
    assert_eq!(m.role, MessageRole::System);
    assert_eq!(m.attachments.len(), 2);
    assert_eq!(m.attachments[0].file_id, "f1");
    assert_eq!(m.attachments[0].filename, "a.png");
    assert_eq!(m.attachments[0].mime_type.as_deref(), Some("image/png"));
    assert_eq!(m.attachments[0].size_bytes, Some(7));
    assert_eq!(m.attachments[1].file_id, "f2");
    assert_eq!(m.attachments[1].mime_type, None);
    assert_eq!(m.attachments[1].size_bytes, None);
}

#[test]
fn a_bad_timestamp_is_reported_before_a_bad_sender() {
    let remote = remote_message("m1", "robot", "not a time");
    assert_eq!(
        map_remote_message(&remote),
        Err(SyncError::InvalidData("invalid created_at timestamp: not a time".to_string()))
    );
    let mut s = summary();
    s.created_at = "x".to_string();
    s.updated_at = "y".to_string();
    assert_eq!(
        map_remote_conversation(&s, "server_1"),
        Err(SyncError::InvalidData("invalid created_at timestamp: x".to_string()))
    );
}

#[test]
fn remote_timestamps_are_strict_date_times() {
    assert_eq!(parse_timestamp("2024-01-01T00:00:00Z", "created_at"), Ok(ts(1_704_067_200)));
    assert_eq!(parse_timestamp("2024-01-01T01:00:00+01:00", "created_at"), Ok(ts(1_704_067_200)));
    assert_eq!(
        parse_timestamp("1704067200", "updated_at"),
        Err(SyncError::InvalidData("invalid updated_at timestamp: 1704067200".to_string()))
    );
    assert_eq!(
        parse_timestamp("", "created_at"),
        Err(SyncError::InvalidData("invalid created_at timestamp: ".to_string()))
    );
}

#[test]
fn the_request_for_an_entry_names_its_files_only_if_it_has_any() {
    let mut entry = queued("q1");
    let plain = replay_request(&entry);
    assert_eq!(plain.text, "hello");
    assert_eq!(plain.conversation_id, "conv_1");
    assert_eq!(plain.files, None);
    assert_eq!(plain.parent_message_id, None);
    assert_eq!(plain.model, None);
    assert_eq!(plain.endpoint, None);
    assert_eq!(plain.preset_id, None);
    entry.attachments = vec![
        QueuedAttachment { file_path: "/tmp/a".to_string(), mime_type: None, size_bytes: None },
        QueuedAttachment {
            file_path: "/tmp/b".to_string(),
            mime_type: Some("text/plain".to_string()),
            size_bytes: Some(3),
        },
    ];
    assert_eq!(replay_request(&entry).files, Some(vec!["/tmp/a".to_string(), "/tmp/b".to_string()]));
}

#[test]
fn each_entry_is_settled_for_itself() {
    let now = 2_000_000_000;
    let mut storage = seeded();
    for id in ["q1", "q2", "q3"] {
        let mut entry = queued(id);
        entry.message_content = id.to_string();
        storage.enqueue_message(&entry).unwrap();
    }
    let mut sync = SyncService::new(storage);
    let send = |request: &SendMessageRequest| -> Result<MessageResponse, ApiError> {
        if request.text == "q2" {
            Err(ApiError::Http { status: 503, message: "busy".to_string() })
        } else {
            Ok(response())
        }
    };
    assert_eq!(sync.process_outbox(ts(now), send), Ok(()));
    let rows = sync.storage().queue_rows();
    assert_eq!(rows.len(), 1);
    assert_eq!(rows[0].id, "q2");
    assert_eq!(rows[0].retry_count, 1);
    assert_eq!(rows[0].next_retry_at, Some(now + RETRY_BACKOFF_SECONDS));
    assert_eq!(rows[0].error_message.as_deref(), Some("api error: http 503: busy"));
    assert_eq!(rows[0].processing_state, "failed");
}

#[test]
fn an_entry_is_given_up_once_its_retries_are_used() {
    let mut storage = seeded();
    let mut entry = queued("q1");
    entry.max_retries = 2;
    storage.enqueue_message(&entry).unwrap();
    let mut sync = SyncService::new(storage);
    let calls = Cell::new(0);
    let failing = |_: &SendMessageRequest| -> Result<MessageResponse, ApiError> {
        calls.set(calls.get() + 1);
        Err(ApiError::Network("down".to_string()))
    };
    let mut now = 1_000;
    for _ in 0..5 {
        assert_eq!(sync.process_outbox(ts(now), failing), Ok(()));
        now += 301;
    }
    assert_eq!(calls.get(), 2);
    let rows = sync.storage().queue_rows();
    assert_eq!(rows.len(), 1);
    assert_eq!(rows[0].retry_count, 2);
    assert_eq!(rows[0].max_retries, 2);
}

#[test]
fn settling_by_hand_removes_or_reschedules() {
    let mut storage = seeded();
    storage.enqueue_message(&queued("q1")).unwrap();
    storage.enqueue_message(&queued("q2")).unwrap();
    let mut sync = SyncService::new(storage);
    let pending = sync.storage().list_pending_queue(ts(50)).unwrap();
    assert_eq!(pending.len(), 2);
    assert_eq!(sync.settle_queue_entry(&pending[0], &Ok(response()), ts(50)), Ok(()));
    assert_eq!(
        sync.settle_queue_entry(&pending[1], &Err(ApiError::Url("bad".to_string())), ts(50)),
        Ok(())
    );
    let rows = sync.storage().queue_rows();
    assert_eq!(rows.len(), 1);
    assert_eq!(rows[0].id, "q2");
    assert_eq!(rows[0].retry_count, 1);
    assert_eq!(rows[0].next_retry_at, Some(350));
    assert_eq!(rows[0].error_message.as_deref(), Some("api error: invalid url: bad"));
}

#[test]
fn sync_and_api_errors_in_words() {
    assert_eq!(ApiError::Network("offline".to_string()).message(), "network error: offline");
    assert_eq!(ApiError::Io("denied".to_string()).message(), "io error: denied");
    assert_eq!(ApiError::Url("x".to_string()).message(), "invalid url: x");
    assert_eq!(
        ApiError::Http { status: 404, message: "missing".to_string() }.message(),
        "http 404: missing"
    );
    assert_eq!(ApiError::Http { status: 0, message: String::new() }.message(), "http 0: ");
    assert_eq!(
        ApiError::Http { status: u16::MAX, message: "m".to_string() }.message(),
        "http 65535: m"
    );
    assert_eq!(ApiError::Serialization("eof".to_string()).message(), "serialization error: eof");
    assert_eq!(
        SyncError::Storage(StorageError::InvalidTimestamp("created_at")).message(),
        "storage error: invalid timestamp for created_at"
    );
    assert_eq!(
        SyncError::Api(ApiError::Network("offline".to_string())).message(),
        "api error: network error: offline"
    );
    assert_eq!(SyncError::InvalidData("x".to_string()).message(), "invalid data: x");
}

#[test]
fn the_store_of_the_engine_can_be_written_to() {
    let mut sync = SyncService::new(seeded());
    sync.storage_mut().enqueue_message(&queued("q1")).unwrap();
    assert_eq!(sync.storage().queue_rows().len(), 1);
    let storage = sync.into_storage();
    assert_eq!(storage.queue_rows()[0].id, "q1");
}

#[test]
fn a_queue_that_cannot_be_read_fails_the_pass_and_sends_nothing() {
    let mut storage = seeded();
    storage.enqueue_message(&queued("q1")).unwrap();
    let mut broken = librechat_core::services::row_mapping::queue_entry_row(&queued("q2"));
    broken.processing_state = "lost".to_string();
    assert!(storage.restore_queue_row(broken));
    let before = (storage.queue_rows().clone(), storage.queue_attachment_rows().clone());
    let mut sync = SyncService::new(storage);
    let calls = Cell::new(0);
    let done = sync.process_outbox(ts(5_000), |_: &SendMessageRequest| {
        calls.set(calls.get() + 1);
        Ok(response())
    });
    assert_eq!(
        done,
        Err(SyncError::Storage(StorageError::InvalidEnum(
            "invalid ProcessingState: lost".to_string()
        )))
    );
    assert_eq!(calls.get(), 0);
    assert_eq!(sync.storage().queue_rows(), &before.0);
    assert_eq!(sync.storage().queue_attachment_rows(), &before.1);
}

#[test]
fn queued_files_travel_with_the_request() {
    let mut storage = seeded();
    let mut entry = queued("q1");
    entry.attachments = vec![
        QueuedAttachment { file_path: "/tmp/a".to_string(), mime_type: None, size_bytes: Some(1) },
        QueuedAttachment { file_path: "/tmp/b".to_string(), mime_type: None, size_bytes: None },
    ];
    storage.enqueue_message(&entry).unwrap();
    let mut sync = SyncService::new(storage);
    let seen: RefCell<Vec<Option<Vec<String>>>> = RefCell::new(vec![]);
    sync.process_outbox(ts(5_000), |request: &SendMessageRequest| {
        seen.borrow_mut().push(request.files.clone());
        Ok(response())
    })
    .unwrap();
    assert_eq!(
        seen.borrow().as_slice(),
        [Some(vec!["/tmp/a".to_string(), "/tmp/b".to_string()])]
    );
    assert!(sync.storage().queue_rows().is_empty());
    assert!(sync.storage().queue_attachment_rows().is_empty());
}

#[test]
fn a_message_that_the_store_refuses_takes_the_whole_sync_back() {
    let mut storage = seeded();
    let mut local = storage.get_conversation("conv_1").unwrap().unwrap();
    local.title = "before the sync".to_string();
    storage.upsert_conversation(&local).unwrap();
    let before = (storage.conversation_rows().clone(), storage.message_rows().clone());
    let mut remote = fixture();
    remote.messages[1].conversation_id = "conv_elsewhere".to_string();
    let mut sync = SyncService::new(storage);
    let done = sync.sync_conversation("server_1", "conv_1", |_: &str| Ok(remote));
    assert_eq!(
        done,
        Err(SyncError::Storage(StorageError::Database("FOREIGN KEY constraint failed".to_string())))
    );
    assert_eq!(sync.storage().conversation_rows(), &before.0);
    assert_eq!(sync.storage().message_rows(), &before.1);
    assert!(sync.storage().attachment_rows().is_empty());
    assert_eq!(sync.storage().get_conversation("conv_1").unwrap().unwrap().title, "before the sync");
}

#[test]
fn a_sync_never_turns_the_update_time_back() {
    let mut storage = seeded();
    let mut local = storage.get_conversation("conv_1").unwrap().unwrap();
    local.updated_at = ts(2_000_000_000);
    storage.upsert_conversation(&local).unwrap();
    let mut sync = SyncService::new(storage);
    sync.sync_conversation("server_1", "conv_1", |_: &str| Ok(fixture())).unwrap();
    let c = sync.storage().get_conversation("conv_1").unwrap().unwrap();
    assert_eq!(c.updated_at, ts(2_000_000_000));
    assert_eq!(c.created_at, ts(10));
    assert_eq!(c.sync_state, SyncState::Synced);
}

#[test]
fn settling_a_stale_entry_beyond_its_budget_is_refused() {
    let mut storage = seeded();
    let mut entry = queued("q1");
    entry.max_retries = 1;
    storage.enqueue_message(&entry).unwrap();
    let mut sync = SyncService::new(storage);
    let pending = sync.storage().list_pending_queue(ts(50)).unwrap();
    let failed = Err(ApiError::Network("down".to_string()));
    assert_eq!(sync.settle_queue_entry(&pending[0], &failed, ts(50)), Ok(()));
    assert_eq!(sync.storage().queue_rows()[0].retry_count, 1);
    let mut stale = queued("q1");
    stale.retry_count = 1;
    stale.max_retries = 5;
    let before = sync.storage().queue_rows().clone();
    assert_eq!(
        sync.settle_queue_entry(&stale, &failed, ts(400)),
        Err(SyncError::Storage(StorageError::Database(
            "CHECK constraint failed: retry_count <= max_retries".to_string()
        )))
    );
    assert_eq!(sync.storage().queue_rows(), &before);
    assert_eq!(sync.settle_queue_entry(&stale, &Ok(response()), ts(400)), Ok(()));
    assert!(sync.storage().queue_rows().is_empty());
}
