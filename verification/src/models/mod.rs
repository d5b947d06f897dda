//! The records that the store persists and the sync engine moves around.

pub mod conversation;
pub mod dropped_file;
pub mod encrypted_cache;
pub mod enums;
pub mod message;
pub mod message_queue;
pub mod quick_capture;
pub mod server_configuration;
pub mod timestamp;
pub mod user_preferences;

pub use conversation::{Conversation, ConversationView};
pub use dropped_file::DroppedFile;
pub use encrypted_cache::{EncryptedCacheEntry, EncryptedCacheEntryView};
pub use enums::{
    AuthType, CachePolicy, CacheType, ConnectionStatus, MessageRole, ProcessingState, SyncState,
    Theme, UploadStatus,
};
pub use message::{Message, MessageAttachment, MessageAttachmentView, MessageView, Metadata};
pub use message_queue::{
    MessageQueueEntry, MessageQueueEntryView, QueuedAttachment, QueuedAttachmentView,
};
pub use quick_capture::QuickCaptureSession;
pub use server_configuration::ServerConfiguration;
pub use timestamp::Timestamp;
pub use user_preferences::{NotificationSettings, UserPreferences, WindowSettings};
