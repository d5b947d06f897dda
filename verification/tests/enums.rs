use std::str::FromStr;

use librechat_core::models::{
    AuthType, CachePolicy, CacheType, ConnectionStatus, MessageRole, ProcessingState, SyncState,
    Theme, UploadStatus,
};

#[test]
fn sync_state_tags() {
    let all = [
        (SyncState::Local, "local"),
        (SyncState::Synced, "synced"),
        (SyncState::Modified, "modified"),
        (SyncState::Conflict, "conflict"),
        (SyncState::Error, "error"),
    ];
    for (state, tag) in all {
        assert_eq!(state.as_str(), tag);
        assert_eq!(SyncState::from_str(tag), Ok(state));
    }
    assert_eq!(SyncState::default(), SyncState::Local);
}

#[test]
fn cache_policy_tags() {
    let all = [
        (CachePolicy::Disabled, "disabled"),
        (CachePolicy::Lightweight, "lightweight"),
        (CachePolicy::Balanced, "balanced"),
        (CachePolicy::Extended, "extended"),
    ];
    for (policy, tag) in all {
        assert_eq!(policy.as_str(), tag);
        assert_eq!(CachePolicy::from_str(tag), Ok(policy));
    }
    assert_eq!(CachePolicy::default(), CachePolicy::Balanced);
}

#[test]
fn message_role_tags() {
    let all = [
        (MessageRole::User, "user"),
        (MessageRole::Assistant, "assistant"),
        (MessageRole::System, "system"),
    ];
    for (role, tag) in all {
        assert_eq!(role.as_str(), tag);
        assert_eq!(MessageRole::from_str(tag), Ok(role));
    }
    assert_eq!(MessageRole::default(), MessageRole::User);
}

#[test]
fn processing_state_tags() {
    let all = [
        (ProcessingState::Pending, "pending"),
        (ProcessingState::Processing, "processing"),
        (ProcessingState::Complete, "complete"),
        (ProcessingState::Failed, "failed"),
        (ProcessingState::Cancelled, "cancelled"),
    ];
    for (state, tag) in all {
        assert_eq!(state.as_str(), tag);
        assert_eq!(ProcessingState::from_str(tag), Ok(state));
    }
    assert_eq!(ProcessingState::default(), ProcessingState::Pending);
}

#[test]
fn auth_type_tags() {
    let all = [(AuthType::Jwt, "jwt"), (AuthType::Oauth, "oauth"), (AuthType::Ldap, "ldap")];
    for (kind, tag) in all {
        assert_eq!(kind.as_str(), tag);
        assert_eq!(AuthType::from_str(tag), Ok(kind));
    }
    assert_eq!(AuthType::default(), AuthType::Jwt);
}

#[test]
fn connection_status_tags() {
    let all = [
        (ConnectionStatus::Connected, "connected"),
        (ConnectionStatus::Disconnected, "disconnected"),
        (ConnectionStatus::Connecting, "connecting"),
        (ConnectionStatus::Error, "error"),
    ];
    for (status, tag) in all {
        assert_eq!(status.as_str(), tag);
        assert_eq!(ConnectionStatus::from_str(tag), Ok(status));
    }
    assert_eq!(ConnectionStatus::default(), ConnectionStatus::Disconnected);
}

#[test]
fn upload_status_tags() {
    let all = [
        (UploadStatus::Pending, "pending"),
        (UploadStatus::Uploading, "uploading"),
        (UploadStatus::Completed, "completed"),
        (UploadStatus::Failed, "failed"),
        (UploadStatus::Cancelled, "cancelled"),
    ];
    for (status, tag) in all {
        assert_eq!(status.as_str(), tag);
        assert_eq!(UploadStatus::from_str(tag), Ok(status));
    }
    assert_eq!(UploadStatus::default(), UploadStatus::Pending);
}

#[test]
fn cache_type_tags() {
    let all = [
        (CacheType::Conversation, "conversation"),
        (CacheType::Message, "message"),
        (CacheType::File, "file"),
        (CacheType::Preference, "preference"),
    ];
    for (kind, tag) in all {
        assert_eq!(kind.as_str(), tag);
        assert_eq!(CacheType::from_str(tag), Ok(kind));
    }
    assert_eq!(CacheType::default(), CacheType::Conversation);
}

#[test]
fn theme_tags() {
    let all = [(Theme::Light, "light"), (Theme::Dark, "dark"), (Theme::System, "system")];
    for (theme, tag) in all {
        assert_eq!(theme.as_str(), tag);
        assert_eq!(Theme::from_str(tag), Ok(theme));
    }
    assert_eq!(Theme::default(), Theme::System);
}

#[test]
fn unknown_tags_are_refused_with_the_tag_quoted() {
    assert_eq!(SyncState::from_str("Local"), Err("invalid SyncState: Local".to_string()));
    assert_eq!(SyncState::from_str(""), Err("invalid SyncState: ".to_string()));
    assert_eq!(CachePolicy::from_str("huge"), Err("invalid CachePolicy: huge".to_string()));
    assert_eq!(MessageRole::from_str("bot"), Err("invalid MessageRole: bot".to_string()));
    assert_eq!(
        ProcessingState::from_str("done"),
        Err("invalid ProcessingState: done".to_string())
    );
    assert_eq!(AuthType::from_str("JWT"), Err("invalid AuthType: JWT".to_string()));
    assert_eq!(
        ConnectionStatus::from_str("offline"),
        Err("invalid ConnectionStatus: offline".to_string())
    );
    assert_eq!(UploadStatus::from_str("complete"), Err("invalid UploadStatus: complete".to_string()));
    assert_eq!(CacheType::from_str("files"), Err("invalid CacheType: files".to_string()));
    assert_eq!(Theme::from_str(" dark"), Err("invalid Theme:  dark".to_string()));
}

#[test]
fn tags_parse_through_the_std_trait() {
    assert_eq!("synced".parse::<SyncState>(), Ok(SyncState::Synced));
    assert_eq!("assistant".parse::<MessageRole>(), Ok(MessageRole::Assistant));
    assert_eq!(<Theme as FromStr>::from_str("dark"), Ok(Theme::Dark));
    assert_eq!("nothing".parse::<CacheType>(), Err("invalid CacheType: nothing".to_string()));
    assert_eq!("balanced".parse::<CachePolicy>(), Ok(CachePolicy::Balanced));
    assert_eq!("failed".parse::<ProcessingState>(), Ok(ProcessingState::Failed));
    assert_eq!("ldap".parse::<AuthType>(), Ok(AuthType::Ldap));
    assert_eq!("connecting".parse::<ConnectionStatus>(), Ok(ConnectionStatus::Connecting));
    assert_eq!("uploading".parse::<UploadStatus>(), Ok(UploadStatus::Uploading));
    assert_eq!("".parse::<Theme>(), Err("invalid Theme: ".to_string()));
    assert_eq!("User".parse::<MessageRole>(), Err("invalid MessageRole: User".to_string()));
}
