//! Tagged states of the domain, each with its canonical lowercase tag.
//!
//! A tag is what the store writes into an enum column. Reading a column back
//! is total: every string is either the tag of exactly one variant or is
//! refused with a message that quotes it.

use vstd::prelude::*;

use crate::text::{prefixed, str_eq};

verus! {

/// Shared synchronization status for persisted records.
#[derive(Debug, Clone, Copy, PartialEq, Eq, Structural)]
pub enum SyncState {
    Local,
    Synced,
    Modified,
    Conflict,
    Error,
}

impl SyncState {
    /// The canonical tag of this state.
    pub open spec fn tag(self) -> Seq<char> {
        match self {
            SyncState::Local => "local"@,
            SyncState::Synced => "synced"@,
            SyncState::Modified => "modified"@,
            SyncState::Conflict => "conflict"@,
            SyncState::Error => "error"@,
        }
    }

    /// The state that a tag stands for, if any.
    pub open spec fn parse(tag: Seq<char>) -> Option<SyncState> {
        if tag == "local"@ {
            Some(SyncState::Local)
        } else if tag == "synced"@ {
            Some(SyncState::Synced)
        } else if tag == "modified"@ {
            Some(SyncState::Modified)
        } else if tag == "conflict"@ {
            Some(SyncState::Conflict)
        } else if tag == "error"@ {
            Some(SyncState::Error)
        } else {
            None
        }
    }

    /// The canonical tag of this state, as it is written into a column.
    pub fn as_str(&self) -> (tag: &'static str)
        ensures
            tag@ == self.tag(),
    {
        match self {
            SyncState::Local => "local",
            SyncState::Synced => "synced",
            SyncState::Modified => "modified",
            SyncState::Conflict => "conflict",
            SyncState::Error => "error",
        }
    }

    /// Reads a tag. An unknown tag is refused with a message that quotes it.
    pub fn from_str(value: &str) -> (parsed: Result<SyncState, String>)
        ensures
            match SyncState::parse(value@) {
                Some(state) => parsed == Ok::<SyncState, String>(state),
                None => parsed is Err && parsed->Err_0@ == "invalid SyncState: "@ + value@,
            },
    {
        if str_eq(value, "local") {
            Ok(SyncState::Local)
        } else if str_eq(value, "synced") {
            Ok(SyncState::Synced)
        } else if str_eq(value, "modified") {
            Ok(SyncState::Modified)
        } else if str_eq(value, "conflict") {
            Ok(SyncState::Conflict)
        } else if str_eq(value, "error") {
            Ok(SyncState::Error)
        } else {
            Err(prefixed("invalid SyncState: ", value))
        }
    }

    /// Every state is read back from its own tag.
    pub proof fn lemma_tag_round_trip(self)
        ensures
            SyncState::parse(self.tag()) == Some(self),
    {
        reveal_strlit("local");
        reveal_strlit("synced");
        reveal_strlit("modified");
        reveal_strlit("conflict");
        reveal_strlit("error");
        assert("local"@.len() == 5);
        assert("synced"@.len() == 6);
        assert("modified"@.len() == 8);
        assert("conflict"@.len() == 8);
        assert("error"@.len() == 5);
        assert("local"@[0] == 'l');
        assert("error"@[0] == 'e');
        assert("modified"@[0] == 'm');
        assert("conflict"@[0] == 'c');
    }

    /// A string is read as a state only if it is that state's tag.
    pub proof fn lemma_parse_is_tag(tag: Seq<char>)
        ensures
            SyncState::parse(tag) matches Some(state) ==> state.tag() == tag,
    {
    }
}

impl Default for SyncState {
    fn default() -> (state: SyncState)
        ensures
            state == SyncState::Local,
    {
        SyncState::Local
    }
}

impl core::str::FromStr for SyncState {
    type Err = String;

    /// Reads a tag through the trait of std: what [`SyncState::from_str`] gives.
    fn from_str(value: &str) -> (parsed: Result<SyncState, String>)
        ensures
            match SyncState::parse(value@) {
                Some(state) => parsed == Ok::<SyncState, String>(state),
                None => parsed is Err && parsed->Err_0@ == "invalid SyncState: "@ + value@,
            },
    {
        SyncState::from_str(value)
    }
}

/// Cache size and retention policy tiers.
#[derive(Debug, Clone, Copy, PartialEq, Eq, Structural)]
pub enum CachePolicy {
    Disabled,
    Lightweight,
    Balanced,
    Extended,
}

impl CachePolicy {
    /// The canonical tag of this policy.
    pub open spec fn tag(self) -> Seq<char> {
        match self {
            CachePolicy::Disabled => "disabled"@,
            CachePolicy::Lightweight => "lightweight"@,
            CachePolicy::Balanced => "balanced"@,
            CachePolicy::Extended => "extended"@,
        }
    }

    /// The policy that a tag stands for, if any.
    pub open spec fn parse(tag: Seq<char>) -> Option<CachePolicy> {
        if tag == "disabled"@ {
            Some(CachePolicy::Disabled)
        } else if tag == "lightweight"@ {
            Some(CachePolicy::Lightweight)
        } else if tag == "balanced"@ {
            Some(CachePolicy::Balanced)
        } else if tag == "extended"@ {
            Some(CachePolicy::Extended)
        } else {
            None
        }
    }

    /// The canonical tag of this policy, as it is written into a column.
    pub fn as_str(&self) -> (tag: &'static str)
        ensures
            tag@ == self.tag(),
    {
        match self {
            CachePolicy::Disabled => "disabled",
            CachePolicy::Lightweight => "lightweight",
            CachePolicy::Balanced => "balanced",
            CachePolicy::Extended => "extended",
        }
    }

    /// Reads a tag. An unknown tag is refused with a message that quotes it.
    pub fn from_str(value: &str) -> (parsed: Result<CachePolicy, String>)
        ensures
            match CachePolicy::parse(value@) {
                Some(policy) => parsed == Ok::<CachePolicy, String>(policy),
                None => parsed is Err && parsed->Err_0@ == "invalid CachePolicy: "@ + value@,
            },
    {
        if str_eq(value, "disabled") {
            Ok(CachePolicy::Disabled)
        } else if str_eq(value, "lightweight") {
            Ok(CachePolicy::Lightweight)
        } else if str_eq(value, "balanced") {
            Ok(CachePolicy::Balanced)
        } else if str_eq(value, "extended") {
            Ok(CachePolicy::Extended)
        } else {
            Err(prefixed("invalid CachePolicy: ", value))
        }
    }

    /// Every policy is read back from its own tag.
    pub proof fn lemma_tag_round_trip(self)
        ensures
            CachePolicy::parse(self.tag()) == Some(self),
    {
        reveal_strlit("disabled");
        reveal_strlit("lightweight");
        reveal_strlit("balanced");
        reveal_strlit("extended");
        assert("disabled"@.len() == 8);
        assert("lightweight"@.len() == 11);
        assert("balanced"@.len() == 8);
        assert("extended"@.len() == 8);
        assert("disabled"@[0] == 'd');
        assert("balanced"@[0] == 'b');
        assert("extended"@[0] == 'e');
    }

    /// A string is read as a policy only if it is that policy's tag.
    pub proof fn lemma_parse_is_tag(tag: Seq<char>)
        ensures
            CachePolicy::parse(tag) matches Some(policy) ==> policy.tag() == tag,
    {
    }
}

impl Default for CachePolicy {
    fn default() -> (policy: CachePolicy)
        ensures
            policy == CachePolicy::Balanced,
    {
        CachePolicy::Balanced
    }
}

impl core::str::FromStr for CachePolicy {
    type Err = String;

    /// Reads a tag through the trait of std: what [`CachePolicy::from_str`] gives.
    fn from_str(value: &str) -> (parsed: Result<CachePolicy, String>)
        ensures
            match CachePolicy::parse(value@) {
                Some(policy) => parsed == Ok::<CachePolicy, String>(policy),
                None => parsed is Err && parsed->Err_0@ == "invalid CachePolicy: "@ + value@,
            },
    {
        CachePolicy::from_str(value)
    }
}

/// Author of a message in a conversation.
#[derive(Debug, Clone, Copy, PartialEq, Eq, Structural)]
pub enum MessageRole {
    User,
    Assistant,
    System,
}

impl MessageRole {
    /// The canonical tag of this role.
    pub open spec fn tag(self) -> Seq<char> {
        match self {
            MessageRole::User => "user"@,
            MessageRole::Assistant => "assistant"@,
            MessageRole::System => "system"@,
        }
    }

    /// The role that a tag stands for, if any.
    pub open spec fn parse(tag: Seq<char>) -> Option<MessageRole> {
        if tag == "user"@ {
            Some(MessageRole::User)
        } else if tag == "assistant"@ {
            Some(MessageRole::Assistant)
        } else if tag == "system"@ {
            Some(MessageRole::System)
        } else {
            None
        }
    }

    /// The canonical tag of this role, as it is written into a column.
    pub fn as_str(&self) -> (tag: &'static str)
        ensures
            tag@ == self.tag(),
    {
        match self {
            MessageRole::User => "user",
            MessageRole::Assistant => "assistant",
            MessageRole::System => "system",
        }
    }

    /// Reads a tag. An unknown tag is refused with a message that quotes it.
    pub fn from_str(value: &str) -> (parsed: Result<MessageRole, String>)
        ensures
            match MessageRole::parse(value@) {
                Some(role) => parsed == Ok::<MessageRole, String>(role),
                None => parsed is Err && parsed->Err_0@ == "invalid MessageRole: "@ + value@,
            },
    {
        if str_eq(value, "user") {
            Ok(MessageRole::User)
        } else if str_eq(value, "assistant") {
            Ok(MessageRole::Assistant)
        } else if str_eq(value, "system") {
            Ok(MessageRole::System)
        } else {
            Err(prefixed("invalid MessageRole: ", value))
        }
    }

    /// Every role is read back from its own tag.
    pub proof fn lemma_tag_round_trip(self)
        ensures
            MessageRole::parse(self.tag()) == Some(self),
    {
        reveal_strlit("user");
        reveal_strlit("assistant");
        reveal_strlit("system");
        assert("user"@.len() == 4);
        assert("assistant"@.len() == 9);
        assert("system"@.len() == 6);
    }

    /// A string is read as a role only if it is that role's tag.
    pub proof fn lemma_parse_is_tag(tag: Seq<char>)
        ensures
            MessageRole::parse(tag) matches Some(role) ==> role.tag() == tag,
    {
    }
}

impl Default for MessageRole {
    fn default() -> (role: MessageRole)
        ensures
            role == MessageRole::User,
    {
        MessageRole::User
    }
}

impl core::str::FromStr for MessageRole {
    type Err = String;

    /// Reads a tag through the trait of std: what [`MessageRole::from_str`] gives.
    fn from_str(value: &str) -> (parsed: Result<MessageRole, String>)
        ensures
            match MessageRole::parse(value@) {
                Some(role) => parsed == Ok::<MessageRole, String>(role),
                None => parsed is Err && parsed->Err_0@ == "invalid MessageRole: "@ + value@,
            },
    {
        MessageRole::from_str(value)
    }
}

/// Processing lifecycle of messages and queue entries.
#[derive(Debug, Clone, Copy, PartialEq, Eq, Structural)]
pub enum ProcessingState {
    Pending,
    Processing,
    Complete,
    Failed,
    Cancelled,
}

impl ProcessingState {
    /// The canonical tag of this state.
    pub open spec fn tag(self) -> Seq<char> {
        match self {
            ProcessingState::Pending => "pending"@,
            ProcessingState::Processing => "processing"@,
            ProcessingState::Complete => "complete"@,
            ProcessingState::Failed => "failed"@,
            ProcessingState::Cancelled => "cancelled"@,
        }
    }

    /// The state that a tag stands for, if any.
    pub open spec fn parse(tag: Seq<char>) -> Option<ProcessingState> {
        if tag == "pending"@ {
            Some(ProcessingState::Pending)
        } else if tag == "processing"@ {
            Some(ProcessingState::Processing)
        } else if tag == "complete"@ {
            Some(ProcessingState::Complete)
        } else if tag == "failed"@ {
            Some(ProcessingState::Failed)
        } else if tag == "cancelled"@ {
            Some(ProcessingState::Cancelled)
        } else {
            None
        }
    }

    /// The canonical tag of this state, as it is written into a column.
    pub fn as_str(&self) -> (tag: &'static str)
        ensures
            tag@ == self.tag(),
    {
        match self {
            ProcessingState::Pending => "pending",
            ProcessingState::Processing => "processing",
            ProcessingState::Complete => "complete",
            ProcessingState::Failed => "failed",
            ProcessingState::Cancelled => "cancelled",
        }
    }

    /// Reads a tag. An unknown tag is refused with a message that quotes it.
    pub fn from_str(value: &str) -> (parsed: Result<ProcessingState, String>)
        ensures
            match ProcessingState::parse(value@) {
                Some(state) => parsed == Ok::<ProcessingState, String>(state),
                None => parsed is Err && parsed->Err_0@ == "invalid ProcessingState: "@ + value@,
            },
    {
        if str_eq(value, "pending") {
            Ok(ProcessingState::Pending)
        } else if str_eq(value, "processing") {
            Ok(ProcessingState::Processing)
        } else if str_eq(value, "complete") {
            Ok(ProcessingState::Complete)
        } else if str_eq(value, "failed") {
            Ok(ProcessingState::Failed)
        } else if str_eq(value, "cancelled") {
            Ok(ProcessingState::Cancelled)
        } else {
            Err(prefixed("invalid ProcessingState: ", value))
        }
    }

    /// Every state is read back from its own tag.
    pub proof fn lemma_tag_round_trip(self)
        ensures
            ProcessingState::parse(self.tag()) == Some(self),
    {
        reveal_strlit("pending");
        reveal_strlit("processing");
        reveal_strlit("complete");
        reveal_strlit("failed");
        reveal_strlit("cancelled");
        assert("pending"@.len() == 7);
        assert("processing"@.len() == 10);
        assert("complete"@.len() == 8);
        assert("failed"@.len() == 6);
        assert("cancelled"@.len() == 9);
    }

    /// A string is read as a state only if it is that state's tag.
    pub proof fn lemma_parse_is_tag(tag: Seq<char>)
        ensures
            ProcessingState::parse(tag) matches Some(state) ==> state.tag() == tag,
    {
    }
}

impl Default for ProcessingState {
    fn default() -> (state: ProcessingState)
        ensures
            state == ProcessingState::Pending,
    {
        ProcessingState::Pending
    }
}

impl core::str::FromStr for ProcessingState {
    type Err = String;

    /// Reads a tag through the trait of std: what [`ProcessingState::from_str`] gives.
    fn from_str(value: &str) -> (parsed: Result<ProcessingState, String>)
        ensures
            match ProcessingState::parse(value@) {
                Some(state) => parsed == Ok::<ProcessingState, String>(state),
                None => parsed is Err && parsed->Err_0@ == "invalid ProcessingState: "@ + value@,
            },
    {
        ProcessingState::from_str(value)
    }
}

/// Authentication mechanism of a configured server.
#[derive(Debug, Clone, Copy, PartialEq, Eq, Structural)]
pub enum AuthType {
    Jwt,
    Oauth,
    Ldap,
}

impl AuthType {
    /// The canonical tag of this kind.
    pub open spec fn tag(self) -> Seq<char> {
        match self {
            AuthType::Jwt => "jwt"@,
            AuthType::Oauth => "oauth"@,
            AuthType::Ldap => "ldap"@,
        }
    }

    /// The kind that a tag stands for, if any.
    pub open spec fn parse(tag: Seq<char>) -> Option<AuthType> {
        if tag == "jwt"@ {
            Some(AuthType::Jwt)
        } else if tag == "oauth"@ {
            Some(AuthType::Oauth)
        } else if tag == "ldap"@ {
            Some(AuthType::Ldap)
        } else {
            None
        }
    }

    /// The canonical tag of this kind, as it is written into a column.
    pub fn as_str(&self) -> (tag: &'static str)
        ensures
            tag@ == self.tag(),
    {
        match self {
            AuthType::Jwt => "jwt",
            AuthType::Oauth => "oauth",
            AuthType::Ldap => "ldap",
        }
    }

    /// Reads a tag. An unknown tag is refused with a message that quotes it.
    pub fn from_str(value: &str) -> (parsed: Result<AuthType, String>)
        ensures
            match AuthType::parse(value@) {
                Some(kind) => parsed == Ok::<AuthType, String>(kind),
                None => parsed is Err && parsed->Err_0@ == "invalid AuthType: "@ + value@,
            },
    {
        if str_eq(value, "jwt") {
            Ok(AuthType::Jwt)
        } else if str_eq(value, "oauth") {
            Ok(AuthType::Oauth)
        } else if str_eq(value, "ldap") {
            Ok(AuthType::Ldap)
        } else {
            Err(prefixed("invalid AuthType: ", value))
        }
    }

    /// Every kind is read back from its own tag.
    pub proof fn lemma_tag_round_trip(self)
        ensures
            AuthType::parse(self.tag()) == Some(self),
    {
        reveal_strlit("jwt");
        reveal_strlit("oauth");
        reveal_strlit("ldap");
        assert("jwt"@.len() == 3);
        assert("oauth"@.len() == 5);
        assert("ldap"@.len() == 4);
    }

    /// A string is read as a kind only if it is that kind's tag.
    pub proof fn lemma_parse_is_tag(tag: Seq<char>)
        ensures
            AuthType::parse(tag) matches Some(kind) ==> kind.tag() == tag,
    {
    }
}

impl Default for AuthType {
    fn default() -> (kind: AuthType)
        ensures
            kind == AuthType::Jwt,
    {
        AuthType::Jwt
    }
}

impl core::str::FromStr for AuthType {
    type Err = String;

    /// Reads a tag through the trait of std: what [`AuthType::from_str`] gives.
    fn from_str(value: &str) -> (parsed: Result<AuthType, String>)
        ensures
            match AuthType::parse(value@) {
                Some(kind) => parsed == Ok::<AuthType, String>(kind),
                None => parsed is Err && parsed->Err_0@ == "invalid AuthType: "@ + value@,
            },
    {
        AuthType::from_str(value)
    }
}

/// Connection state of a configured server.
#[derive(Debug, Clone, Copy, PartialEq, Eq, Structural)]
pub enum ConnectionStatus {
    Connected,
    Disconnected,
    Connecting,
    Error,
}

impl ConnectionStatus {
    /// The canonical tag of this status.
    pub open spec fn tag(self) -> Seq<char> {
        match self {
            ConnectionStatus::Connected => "connected"@,
            ConnectionStatus::Disconnected => "disconnected"@,
            ConnectionStatus::Connecting => "connecting"@,
            ConnectionStatus::Error => "error"@,
        }
    }

    /// The status that a tag stands for, if any.
    pub open spec fn parse(tag: Seq<char>) -> Option<ConnectionStatus> {
        if tag == "connected"@ {
            Some(ConnectionStatus::Connected)
        } else if tag == "disconnected"@ {
            Some(ConnectionStatus::Disconnected)
        } else if tag == "connecting"@ {
            Some(ConnectionStatus::Connecting)
        } else if tag == "error"@ {
            Some(ConnectionStatus::Error)
        } else {
            None
        }
    }

    /// The canonical tag of this status, as it is written into a column.
    pub fn as_str(&self) -> (tag: &'static str)
        ensures
            tag@ == self.tag(),
    {
        match self {
            ConnectionStatus::Connected => "connected",
            ConnectionStatus::Disconnected => "disconnected",
            ConnectionStatus::Connecting => "connecting",
            ConnectionStatus::Error => "error",
        }
    }

    /// Reads a tag. An unknown tag is refused with a message that quotes it.
    pub fn from_str(value: &str) -> (parsed: Result<ConnectionStatus, String>)
        ensures
            match ConnectionStatus::parse(value@) {
                Some(status) => parsed == Ok::<ConnectionStatus, String>(status),
                None => parsed is Err && parsed->Err_0@ == "invalid ConnectionStatus: "@ + value@,
            },
    {
        if str_eq(value, "connected") {
            Ok(ConnectionStatus::Connected)
        } else if str_eq(value, "disconnected") {
            Ok(ConnectionStatus::Disconnected)
        } else if str_eq(value, "connecting") {
            Ok(ConnectionStatus::Connecting)
        } else if str_eq(value, "error") {
            Ok(ConnectionStatus::Error)
        } else {
            Err(prefixed("invalid ConnectionStatus: ", value))
        }
    }

    /// Every status is read back from its own tag.
    pub proof fn lemma_tag_round_trip(self)
        ensures
            ConnectionStatus::parse(self.tag()) == Some(self),
    {
        reveal_strlit("connected");
        reveal_strlit("disconnected");
        reveal_strlit("connecting");
        reveal_strlit("error");
        assert("connected"@.len() == 9);
        assert("disconnected"@.len() == 12);
        assert("connecting"@.len() == 10);
        assert("error"@.len() == 5);
    }

    /// A string is read as a status only if it is that status's tag.
    pub proof fn lemma_parse_is_tag(tag: Seq<char>)
        ensures
            ConnectionStatus::parse(tag) matches Some(status) ==> status.tag() == tag,
    {
    }
}

impl Default for ConnectionStatus {
    fn default() -> (status: ConnectionStatus)
        ensures
            status == ConnectionStatus::Disconnected,
    {
        ConnectionStatus::Disconnected
    }
}

impl core::str::FromStr for ConnectionStatus {
    type Err = String;

    /// Reads a tag through the trait of std: what [`ConnectionStatus::from_str`] gives.
    fn from_str(value: &str) -> (parsed: Result<ConnectionStatus, String>)
        ensures
            match ConnectionStatus::parse(value@) {
                Some(status) => parsed == Ok::<ConnectionStatus, String>(status),
                None => parsed is Err && parsed->Err_0@ == "invalid ConnectionStatus: "@ + value@,
            },
    {
        ConnectionStatus::from_str(value)
    }
}

/// Upload lifecycle of a dropped file.
#[derive(Debug, Clone, Copy, PartialEq, Eq, Structural)]
pub enum UploadStatus {
    Pending,
    Uploading,
    Completed,
    Failed,
    Cancelled,
}

impl UploadStatus {
    /// The canonical tag of this status.
    pub open spec fn tag(self) -> Seq<char> {
        match self {
            UploadStatus::Pending => "pending"@,
            UploadStatus::Uploading => "uploading"@,
            UploadStatus::Completed => "completed"@,
            UploadStatus::Failed => "failed"@,
            UploadStatus::Cancelled => "cancelled"@,
        }
    }

    /// The status that a tag stands for, if any.
    pub open spec fn parse(tag: Seq<char>) -> Option<UploadStatus> {
        if tag == "pending"@ {
            Some(UploadStatus::Pending)
        } else if tag == "uploading"@ {
            Some(UploadStatus::Uploading)
        } else if tag == "completed"@ {
            Some(UploadStatus::Completed)
        } else if tag == "failed"@ {
            Some(UploadStatus::Failed)
        } else if tag == "cancelled"@ {
            Some(UploadStatus::Cancelled)
        } else {
            None
        }
    }

    /// The canonical tag of this status, as it is written into a column.
    pub fn as_str(&self) -> (tag: &'static str)
        ensures
            tag@ == self.tag(),
    {
        match self {
            UploadStatus::Pending => "pending",
            UploadStatus::Uploading => "uploading",
            UploadStatus::Completed => "completed",
            UploadStatus::Failed => "failed",
            UploadStatus::Cancelled => "cancelled",
        }
    }

    /// Reads a tag. An unknown tag is refused with a message that quotes it.
    pub fn from_str(value: &str) -> (parsed: Result<UploadStatus, String>)
        ensures
            match UploadStatus::parse(value@) {
                Some(status) => parsed == Ok::<UploadStatus, String>(status),
                None => parsed is Err && parsed->Err_0@ == "invalid UploadStatus: "@ + value@,
            },
    {
        if str_eq(value, "pending") {
            Ok(UploadStatus::Pending)
        } else if str_eq(value, "uploading") {
            Ok(UploadStatus::Uploading)
        } else if str_eq(value, "completed") {
            Ok(UploadStatus::Completed)
        } else if str_eq(value, "failed") {
            Ok(UploadStatus::Failed)
        } else if str_eq(value, "cancelled") {
            Ok(UploadStatus::Cancelled)
        } else {
            Err(prefixed("invalid UploadStatus: ", value))
        }
    }

    /// Every status is read back from its own tag.
    pub proof fn lemma_tag_round_trip(self)
        ensures
            UploadStatus::parse(self.tag()) == Some(self),
    {
        reveal_strlit("pending");
        reveal_strlit("uploading");
        reveal_strlit("completed");
        reveal_strlit("failed");
        reveal_strlit("cancelled");
        assert("pending"@.len() == 7);
        assert("uploading"@.len() == 9);
        assert("completed"@.len() == 9);
        assert("failed"@.len() == 6);
        assert("cancelled"@.len() == 9);
        assert("uploading"@[0] == 'u');
        assert("completed"@[0] == 'c');
        assert("cancelled"@[0] == 'c');
        assert("completed"@[1] == 'o');
        assert("cancelled"@[1] == 'a');
    }

    /// A string is read as a status only if it is that status's tag.
    pub proof fn lemma_parse_is_tag(tag: Seq<char>)
        ensures
            UploadStatus::parse(tag) matches Some(status) ==> status.tag() == tag,
    {
    }
}

impl Default for UploadStatus {
    fn default() -> (status: UploadStatus)
        ensures
            status == UploadStatus::Pending,
    {
        UploadStatus::Pending
    }
}

impl core::str::FromStr for UploadStatus {
    type Err = String;

    /// Reads a tag through the trait of std: what [`UploadStatus::from_str`] gives.
    fn from_str(value: &str) -> (parsed: Result<UploadStatus, String>)
        ensures
            match UploadStatus::parse(value@) {
                Some(status) => parsed == Ok::<UploadStatus, String>(status),
                None => parsed is Err && parsed->Err_0@ == "invalid UploadStatus: "@ + value@,
            },
    {
        UploadStatus::from_str(value)
    }
}

/// Segment of the encrypted cache that an entry belongs to.
#[derive(Debug, Clone, Copy, PartialEq, Eq, Structural)]
pub enum CacheType {
    Conversation,
    Message,
    File,
    Preference,
}

impl CacheType {
    /// The canonical tag of this kind.
    pub open spec fn tag(self) -> Seq<char> {
        match self {
            CacheType::Conversation => "conversation"@,
            CacheType::Message => "message"@,
            CacheType::File => "file"@,
            CacheType::Preference => "preference"@,
        }
    }

    /// The kind that a tag stands for, if any.
    pub open spec fn parse(tag: Seq<char>) -> Option<CacheType> {
        if tag == "conversation"@ {
            Some(CacheType::Conversation)
        } else if tag == "message"@ {
            Some(CacheType::Message)
        } else if tag == "file"@ {
            Some(CacheType::File)
        } else if tag == "preference"@ {
            Some(CacheType::Preference)
        } else {
            None
        }
    }

    /// The canonical tag of this kind, as it is written into a column.
    pub fn as_str(&self) -> (tag: &'static str)
        ensures
            tag@ == self.tag(),
    {
        match self {
            CacheType::Conversation => "conversation",
            CacheType::Message => "message",
            CacheType::File => "file",
            CacheType::Preference => "preference",
        }
    }

    /// Reads a tag. An unknown tag is refused with a message that quotes it.
    pub fn from_str(value: &str) -> (parsed: Result<CacheType, String>)
        ensures
            match CacheType::parse(value@) {
                Some(kind) => parsed == Ok::<CacheType, String>(kind),
                None => parsed is Err && parsed->Err_0@ == "invalid CacheType: "@ + value@,
            },
    {
        if str_eq(value, "conversation") {
            Ok(CacheType::Conversation)
        } else if str_eq(value, "message") {
            Ok(CacheType::Message)
        } else if str_eq(value, "file") {
            Ok(CacheType::File)
        } else if str_eq(value, "preference") {
            Ok(CacheType::Preference)
        } else {
            Err(prefixed("invalid CacheType: ", value))
        }
    }

    /// Every kind is read back from its own tag.
    pub proof fn lemma_tag_round_trip(self)
        ensures
            CacheType::parse(self.tag()) == Some(self),
    {
        reveal_strlit("conversation");
        reveal_strlit("message");
        reveal_strlit("file");
        reveal_strlit("preference");
        assert("conversation"@.len() == 12);
        assert("message"@.len() == 7);
        assert("file"@.len() == 4);
        assert("preference"@.len() == 10);
    }

    /// A string is read as a kind only if it is that kind's tag.
    pub proof fn lemma_parse_is_tag(tag: Seq<char>)
        ensures
            CacheType::parse(tag) matches Some(kind) ==> kind.tag() == tag,
    {
    }
}

impl Default for CacheType {
    fn default() -> (kind: CacheType)
        ensures
            kind == CacheType::Conversation,
    {
        CacheType::Conversation
    }
}

impl core::str::FromStr for CacheType {
    type Err = String;

    /// Reads a tag through the trait of std: what [`CacheType::from_str`] gives.
    fn from_str(value: &str) -> (parsed: Result<CacheType, String>)
        ensures
            match CacheType::parse(value@) {
                Some(kind) => parsed == Ok::<CacheType, String>(kind),
                None => parsed is Err && parsed->Err_0@ == "invalid CacheType: "@ + value@,
            },
    {
        CacheType::from_str(value)
    }
}

/// Visual theme preference.
#[derive(Debug, Clone, Copy, PartialEq, Eq, Structural)]
pub enum Theme {
    Light,
    Dark,
    System,
}

impl Theme {
    /// The canonical tag of this theme.
    pub open spec fn tag(self) -> Seq<char> {
        match self {
            Theme::Light => "light"@,
            Theme::Dark => "dark"@,
            Theme::System => "system"@,
        }
    }

    /// The theme that a tag stands for, if any.
    pub open spec fn parse(tag: Seq<char>) -> Option<Theme> {
        if tag == "light"@ {
            Some(Theme::Light)
        } else if tag == "dark"@ {
            Some(Theme::Dark)
        } else if tag == "system"@ {
            Some(Theme::System)
        } else {
            None
        }
    }

    /// The canonical tag of this theme, as it is written into a column.
    pub fn as_str(&self) -> (tag: &'static str)
        ensures
            tag@ == self.tag(),
    {
        match self {
            Theme::Light => "light",
            Theme::Dark => "dark",
            Theme::System => "system",
        }
    }

    /// Reads a tag. An unknown tag is refused with a message that quotes it.
    pub fn from_str(value: &str) -> (parsed: Result<Theme, String>)
        ensures
            match Theme::parse(value@) {
                Some(theme) => parsed == Ok::<Theme, String>(theme),
                None => parsed is Err && parsed->Err_0@ == "invalid Theme: "@ + value@,
            },
    {
        if str_eq(value, "light") {
            Ok(Theme::Light)
        } else if str_eq(value, "dark") {
            Ok(Theme::Dark)
        } else if str_eq(value, "system") {
            Ok(Theme::System)
        } else {
            Err(prefixed("invalid Theme: ", value))
        }
    }

    /// Every theme is read back from its own tag.
    pub proof fn lemma_tag_round_trip(self)
        ensures
            Theme::parse(self.tag()) == Some(self),
    {
        reveal_strlit("light");
        reveal_strlit("dark");
        reveal_strlit("system");
        assert("light"@.len() == 5);
        assert("dark"@.len() == 4);
        assert("system"@.len() == 6);
    }

    /// A string is read as a theme only if it is that theme's tag.
    pub proof fn lemma_parse_is_tag(tag: Seq<char>)
        ensures
            Theme::parse(tag) matches Some(theme) ==> theme.tag() == tag,
    {
    }
}

impl Default for Theme {
    fn default() -> (theme: Theme)
        ensures
            theme == Theme::System,
    {
        Theme::System
    }
}

impl core::str::FromStr for Theme {
    type Err = String;

    /// Reads a tag through the trait of std: what [`Theme::from_str`] gives.
    fn from_str(value: &str) -> (parsed: Result<Theme, String>)
        ensures
            match Theme::parse(value@) {
                Some(theme) => parsed == Ok::<Theme, String>(theme),
                None => parsed is Err && parsed->Err_0@ == "invalid Theme: "@ + value@,
            },
    {
        Theme::from_str(value)
    }
}

} // verus!
