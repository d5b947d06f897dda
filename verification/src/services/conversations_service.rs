//! What the conversations endpoint of the chat service exchanges.

use vstd::prelude::*;

use crate::services::messages_service::{Message as RemoteMessage, MessageView as RemoteMessageView};

verus! {

/// Which page of conversations to list, and what to search for.
#[derive(Debug, Default)]
pub struct ListConversationsParams {
    pub limit: Option<u32>,
    pub offset: Option<u32>,
    pub search: Option<String>,
}

/// What is sent to open a conversation.
#[derive(Debug)]
pub struct CreateConversationRequest {
    pub title: Option<String>,
    pub model: Option<String>,
    pub endpoint: Option<String>,
}

/// What is sent to rename a conversation.
#[derive(Debug, Default)]
pub struct UpdateConversationRequest {
    pub title: Option<String>,
}

/// A page of conversations.
#[derive(Debug)]
pub struct ConversationListResponse {
    pub conversations: Vec<ConversationSummary>,
    pub total: u32,
    pub limit: u32,
    pub offset: u32,
    pub has_more: bool,
}

/// A conversation as the chat service reports it. The timestamps are meant
/// to be strict RFC 3339 date-times.
#[derive(Debug)]
pub struct ConversationSummary {
    pub conversation_id: String,
    pub title: String,
    pub created_at: String,
    pub updated_at: String,
    pub is_pinned: bool,
    pub is_starred: bool,
}

/// What a [`ConversationSummary`] holds, as mathematical values.
pub struct ConversationSummaryView {
    pub conversation_id: Seq<char>,
    pub title: Seq<char>,
    pub created_at: Seq<char>,
    pub updated_at: Seq<char>,
    pub is_pinned: bool,
    pub is_starred: bool,
}

impl View for ConversationSummary {
    type V = ConversationSummaryView;

    open spec fn view(&self) -> ConversationSummaryView {
        ConversationSummaryView {
            conversation_id: self.conversation_id@,
            title: self.title@,
            created_at: self.created_at@,
            updated_at: self.updated_at@,
            is_pinned: self.is_pinned,
            is_starred: self.is_starred,
        }
    }
}

impl DeepView for ConversationSummary {
    type V = ConversationSummaryView;

    open spec fn deep_view(&self) -> ConversationSummaryView {
        self.view()
    }
}

/// A conversation with its messages, as the chat service reports it.
#[derive(Debug)]
pub struct ConversationDetail {
    pub summary: ConversationSummary,
    pub messages: Vec<RemoteMessage>,
}

/// What a [`ConversationDetail`] holds, as mathematical values.
pub struct ConversationDetailView {
    pub summary: ConversationSummaryView,
    pub messages: Seq<RemoteMessageView>,
}

impl View for ConversationDetail {
    type V = ConversationDetailView;

    open spec fn view(&self) -> ConversationDetailView {
        ConversationDetailView {
            summary: self.summary@,
            messages: self.messages.deep_view(),
        }
    }
}

impl DeepView for ConversationDetail {
    type V = ConversationDetailView;

    open spec fn deep_view(&self) -> ConversationDetailView {
        self.view()
    }
}

} // verus!
