//! Conversations.

use vstd::prelude::*;

use crate::models::{CachePolicy, SyncState, Timestamp};
use crate::text::copy_opt_string;

verus! {

/// A conversation with the metadata that offline caching needs.
///
/// `message_count` caches the number of message rows; the rows themselves are
/// authoritative.
#[derive(Debug, PartialEq, Eq)]
pub struct Conversation {
    pub id: String,
    pub title: String,
    pub created_at: Timestamp,
    pub updated_at: Timestamp,
    pub is_pinned: bool,
    pub is_starred: bool,
    pub server_id: String,
    pub sync_state: SyncState,
    pub cache_policy: CachePolicy,
    pub message_count: u32,
    pub last_message_preview: Option<String>,
}

/// What a [`Conversation`] holds, as mathematical values.
pub struct ConversationView {
    pub id: Seq<char>,
    pub title: Seq<char>,
    pub created_at: int,
    pub updated_at: int,
    pub is_pinned: bool,
    pub is_starred: bool,
    pub server_id: Seq<char>,
    pub sync_state: SyncState,
    pub cache_policy: CachePolicy,
    pub message_count: u32,
    pub last_message_preview: Option<Seq<char>>,
}

impl View for Conversation {
    type V = ConversationView;

    open spec fn view(&self) -> ConversationView {
        ConversationView {
            id: self.id@,
            title: self.title@,
            created_at: self.created_at@,
            updated_at: self.updated_at@,
            is_pinned: self.is_pinned,
            is_starred: self.is_starred,
            server_id: self.server_id@,
            sync_state: self.sync_state,
            cache_policy: self.cache_policy,
            message_count: self.message_count,
            last_message_preview: self.last_message_preview.deep_view(),
        }
    }
}

impl DeepView for Conversation {
    type V = ConversationView;

    open spec fn deep_view(&self) -> ConversationView {
        self.view()
    }
}

impl Clone for Conversation {
    fn clone(&self) -> (copy: Conversation)
        ensures
            copy@ == self@,
    {
        Conversation {
            id: self.id.clone(),
            title: self.title.clone(),
            created_at: self.created_at,
            updated_at: self.updated_at,
            is_pinned: self.is_pinned,
            is_starred: self.is_starred,
            server_id: self.server_id.clone(),
            sync_state: self.sync_state,
            cache_policy: self.cache_policy,
            message_count: self.message_count,
            last_message_preview: copy_opt_string(&self.last_message_preview),
        }
    }
}

impl Conversation {
    /// Counts one more message, stopping at the largest count that fits.
    pub fn increment_message_count(&mut self)
        ensures
            final(self).message_count == if old(self).message_count == u32::MAX {
                u32::MAX
            } else {
                (old(self).message_count + 1) as u32
            },
            *final(self) == (Conversation {
                message_count: final(self).message_count,
                ..*old(self)
            }),
    {
        self.message_count = self.message_count.saturating_add(1);
    }
}

} // verus!
