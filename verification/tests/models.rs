use librechat_core::models::{
    AuthType, CachePolicy, CacheType, ConnectionStatus, Conversation, DroppedFile,
    EncryptedCacheEntry, Message, MessageAttachment, MessageQueueEntry, MessageRole, Metadata,
    NotificationSettings, ProcessingState, QueuedAttachment, QuickCaptureSession,
    ServerConfiguration, SyncState, Theme, Timestamp, UploadStatus, UserPreferences,
    WindowSettings,
};

fn ts(seconds: i64) -> Timestamp {
    Timestamp::from_seconds(seconds).unwrap()
}

fn conversation(count: u32) -> Conversation {
    Conversation {
        id: "conv_1".to_string(),
        title: "First".to_string(),
        created_at: ts(10),
        updated_at: ts(20),
        is_pinned: false,
        is_starred: true,
        server_id: "server_1".to_string(),
        sync_state: SyncState::Local,
        cache_policy: CachePolicy::Balanced,
        message_count: count,
        last_message_preview: None,
    }
}

fn entry(retry_count: u32, max_retries: u32, next_retry_at: Option<Timestamp>) -> MessageQueueEntry {
    MessageQueueEntry {
        id: "q1".to_string(),
        conversation_id: "conv_1".to_string(),
        message_content: "hello".to_string(),
        attachments: vec![],
        created_at: ts(0),
        retry_count,
        max_retries,
        next_retry_at,
        error_message: None,
        processing_state: ProcessingState::Pending,
    }
}

#[test]
fn message_count_goes_up_by_one_and_stops_at_the_top() {
    let mut c = conversation(0);
    c.increment_message_count();
    assert_eq!(c.message_count, 1);
    let mut full = conversation(u32::MAX - 1);
    full.increment_message_count();
    assert_eq!(full.message_count, u32::MAX);
    full.increment_message_count();
    assert_eq!(full.message_count, u32::MAX);
    assert_eq!(full.title, "First");
    assert_eq!(full.updated_at, ts(20));
}

#[test]
fn conversation_copy_is_equal() {
    let c = conversation(3);
    assert_eq!(c.clone(), c);
}

#[test]
fn new_attachment_knows_only_file_and_name() {
    let a = MessageAttachment::new("file_1", "notes.txt");
    assert_eq!(a.file_id, "file_1");
    assert_eq!(a.filename, "notes.txt");
    assert_eq!(a.mime_type, None);
    assert_eq!(a.size_bytes, None);
}

#[test]
fn attachments_are_appended_in_order() {
    let mut m = Message {
        id: "m1".to_string(),
        conversation_id: "conv_1".to_string(),
        content: "hi".to_string(),
        role: MessageRole::User,
        timestamp: ts(5),
        sync_state: SyncState::Local,
        attachments: vec![],
        metadata: Metadata::empty(),
        processing_state: ProcessingState::Pending,
    };
    m.add_attachment(MessageAttachment::new("f1", "a.txt"));
    m.add_attachment(MessageAttachment::new("f2", "b.txt"));
    assert_eq!(m.attachments.len(), 2);
    assert_eq!(m.attachments[0].file_id, "f1");
    assert_eq!(m.attachments[1].file_id, "f2");
    assert_eq!(m.clone(), m);
}

#[test]
fn metadata_is_a_json_object() {
    assert_eq!(Metadata::empty().as_str(), "{}");
    let m = Metadata::parse("{\"source\":\"import\",\"tokens\":12}").unwrap();
    assert_eq!(m.as_str(), "{\"source\":\"import\",\"tokens\":12}");
    assert_eq!(m.clone(), m);
    assert!(Metadata::parse("{}").is_ok());
    assert!(Metadata::parse("[1,2]").is_err());
    assert!(Metadata::parse("12").is_err());
    assert!(Metadata::parse("{\"a\":").is_err());
    assert!(Metadata::parse("").is_err());
}

#[test]
fn an_entry_may_be_sent_with_retries_left_and_no_bar_ahead() {
    let now = ts(1_000);
    assert!(entry(0, 3, None).can_retry(now));
    assert!(entry(2, 3, None).can_retry(now));
    assert!(!entry(3, 3, None).can_retry(now));
    assert!(!entry(4, 3, None).can_retry(now));
    assert!(!entry(0, 0, None).can_retry(now));
    assert!(entry(0, 3, Some(ts(999))).can_retry(now));
    assert!(entry(0, 3, Some(ts(1_000))).can_retry(now));
    assert!(!entry(0, 3, Some(ts(1_001))).can_retry(now));
    assert!(!entry(3, 3, Some(ts(0))).can_retry(now));
}

#[test]
fn a_bar_ten_minutes_ahead_lifts_after_ten_minutes() {
    let now = ts(1_700_000_000);
    let barred = entry(1, 3, Some(now.checked_add_seconds(600).unwrap()));
    assert!(!barred.can_retry(now));
    assert!(!barred.can_retry(now.checked_add_seconds(599).unwrap()));
    assert!(barred.can_retry(now.checked_add_seconds(600).unwrap()));
}

#[test]
fn queue_entry_copy_is_equal() {
    let mut e = entry(1, 3, Some(ts(7)));
    e.attachments.push(QueuedAttachment {
        file_path: "/tmp/a.png".to_string(),
        mime_type: Some("image/png".to_string()),
        size_bytes: Some(12),
    });
    assert_eq!(e.clone(), e);
}

#[test]
fn a_cache_entry_is_dead_from_its_expiry_on() {
    let mut e = EncryptedCacheEntry {
        key: "k".to_string(),
        encrypted_data: vec![1, 2, 3],
        created_at: ts(0),
        accessed_at: ts(0),
        expires_at: None,
        cache_type: CacheType::File,
        size_bytes: 3,
        encryption_key_id: "master-key".to_string(),
    };
    assert!(!e.is_expired(ts(1_000_000)));
    e.expires_at = Some(ts(100));
    assert!(!e.is_expired(ts(99)));
    assert!(e.is_expired(ts(100)));
    assert!(e.is_expired(ts(101)));
    assert_eq!(e.clone(), e);
}

#[test]
fn a_token_is_valid_strictly_before_its_expiry() {
    let mut s = ServerConfiguration {
        id: "server_1".to_string(),
        name: "Home".to_string(),
        base_url: "https://chat.example".to_string(),
        auth_type: AuthType::Jwt,
        auth_token: Some("SECRET-REDACTED".to_string()),
        refresh_token: None,
        token_expires_at: None,
        is_active: true,
        is_secure: true,
        last_connected: None,
        connection_status: ConnectionStatus::Connected,
        api_version: "v1".to_string(),
        created_at: ts(0),
    };
    assert!(!s.token_is_valid(ts(0)));
    s.token_expires_at = Some(ts(100));
    assert!(s.token_is_valid(ts(99)));
    assert!(!s.token_is_valid(ts(100)));
    assert!(!s.token_is_valid(ts(101)));
}

#[test]
fn default_window_and_notifications() {
    let w = WindowSettings::default();
    assert_eq!(w.width, 1024);
    assert_eq!(w.height, 768);
    assert_eq!(w.position_x, None);
    assert_eq!(w.position_y, None);
    assert!(!w.is_maximized);
    assert!(!w.is_fullscreen);
    let n = NotificationSettings::default();
    assert!(n.enabled && n.play_sound && n.show_alerts);
}

#[test]
fn touching_preferences_moves_only_the_update_time() {
    let mut p = UserPreferences {
        user_id: "u1".to_string(),
        global_hotkey: Some("CmdOrCtrl+Shift+L".to_string()),
        cache_policy: CachePolicy::Extended,
        theme: Theme::Dark,
        window_settings: WindowSettings::default(),
        notification_settings: NotificationSettings::default(),
        quick_capture_enabled: true,
        system_tray_enabled: true,
        auto_start: false,
        analytics_enabled: false,
        created_at: ts(1),
        updated_at: ts(2),
    };
    p.touch(ts(50));
    assert_eq!(p.updated_at, ts(50));
    assert_eq!(p.created_at, ts(1));
    assert_eq!(p.theme, Theme::Dark);
    assert_eq!(p.global_hotkey.as_deref(), Some("CmdOrCtrl+Shift+L"));
}

#[test]
fn a_processed_file_is_completed() {
    let mut f = DroppedFile {
        id: "d1".to_string(),
        conversation_id: None,
        original_name: "a.txt".to_string(),
        file_path: "/tmp/a.txt".to_string(),
        mime_type: "text/plain".to_string(),
        size_bytes: 128,
        checksum: "abc".to_string(),
        upload_status: UploadStatus::Uploading,
        server_file_id: None,
        dropped_at: ts(10),
        processed_at: None,
        error_message: None,
    };
    f.mark_processed(ts(20));
    assert_eq!(f.upload_status, UploadStatus::Completed);
    assert_eq!(f.processed_at, Some(ts(20)));
    assert_eq!(f.size_bytes, 128);
}

#[test]
fn a_completed_session_records_its_duration() {
    let mut s = QuickCaptureSession {
        id: "s1".to_string(),
        query: "remember".to_string(),
        response: None,
        created_at: ts(100),
        completed_at: None,
        session_duration_ms: None,
        converted_to_conversation: None,
        server_id: "server_1".to_string(),
    };
    s.mark_completed(ts(103), Some("done".to_string()));
    assert_eq!(s.completed_at, Some(ts(103)));
    assert_eq!(s.session_duration_ms, Some(3_000));
    assert_eq!(s.response.as_deref(), Some("done"));
    s.mark_completed(ts(90), None);
    assert_eq!(s.session_duration_ms, Some(0));
    assert_eq!(s.response, None);
    s.mark_completed(ts(100), None);
    assert_eq!(s.session_duration_ms, Some(0));
}
