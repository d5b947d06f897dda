//! What the messages endpoint of the chat service exchanges.

use vstd::prelude::*;

use crate::text::copy_opt_string;

verus! {

/// What is sent to post a message.
#[derive(Debug)]
pub struct SendMessageRequest {
    pub text: String,
    pub conversation_id: String,
    pub parent_message_id: Option<String>,
    pub model: Option<String>,
    pub endpoint: Option<String>,
    pub files: Option<Vec<String>>,
    pub preset_id: Option<String>,
}

/// What a [`SendMessageRequest`] holds, as mathematical values.
pub struct SendMessageRequestView {
    pub text: Seq<char>,
    pub conversation_id: Seq<char>,
    pub parent_message_id: Option<Seq<char>>,
    pub model: Option<Seq<char>>,
    pub endpoint: Option<Seq<char>>,
    pub files: Option<Seq<Seq<char>>>,
    pub preset_id: Option<Seq<char>>,
}

impl View for SendMessageRequest {
    type V = SendMessageRequestView;

    open spec fn view(&self) -> SendMessageRequestView {
        SendMessageRequestView {
            text: self.text@,
            conversation_id: self.conversation_id@,
            parent_message_id: self.parent_message_id.deep_view(),
            model: self.model.deep_view(),
            endpoint: self.endpoint.deep_view(),
            files: self.files.deep_view(),
            preset_id: self.preset_id.deep_view(),
        }
    }
}

impl DeepView for SendMessageRequest {
    type V = SendMessageRequestView;

    open spec fn deep_view(&self) -> SendMessageRequestView {
        self.view()
    }
}

/// What is sent to edit a message.
#[derive(Debug)]
pub struct UpdateMessageRequest {
    pub text: String,
}

/// What is sent to stop a message that is still being generated.
#[derive(Debug)]
pub struct AbortMessageRequest {
    pub conversation_id: String,
    pub message_id: String,
}

/// The answer to a posted message. `conversation` holds, as JSON text, what
/// the service said of the conversation, if anything.
#[derive(Debug)]
pub struct MessageResponse {
    pub message: Message,
    pub conversation: Option<String>,
}

/// A message as the chat service reports it. `sender` is meant to be one
/// of the role tags, and `created_at` a strict RFC 3339 date-time.
#[derive(Debug)]
pub struct Message {
    pub message_id: String,
    pub conversation_id: String,
    pub text: String,
    pub sender: String,
    pub created_at: String,
    pub is_created_by_user: bool,
    pub error: bool,
    pub parent_message_id: Option<String>,
    pub model: Option<String>,
    pub token_count: Option<u32>,
    pub finish_reason: Option<String>,
    pub files: Vec<MessageFile>,
}

/// What a [`Message`] holds, as mathematical values.
pub struct MessageView {
    pub message_id: Seq<char>,
    pub conversation_id: Seq<char>,
    pub text: Seq<char>,
    pub sender: Seq<char>,
    pub created_at: Seq<char>,
    pub is_created_by_user: bool,
    pub error: bool,
    pub parent_message_id: Option<Seq<char>>,
    pub model: Option<Seq<char>>,
    pub token_count: Option<u32>,
    pub finish_reason: Option<Seq<char>>,
    pub files: Seq<MessageFileView>,
}

impl View for Message {
    type V = MessageView;

    open spec fn view(&self) -> MessageView {
        MessageView {
            message_id: self.message_id@,
            conversation_id: self.conversation_id@,
            text: self.text@,
            sender: self.sender@,
            created_at: self.created_at@,
            is_created_by_user: self.is_created_by_user,
            error: self.error,
            parent_message_id: self.parent_message_id.deep_view(),
            model: self.model.deep_view(),
            token_count: self.token_count,
            finish_reason: self.finish_reason.deep_view(),
            files: self.files.deep_view(),
        }
    }
}

impl DeepView for Message {
    type V = MessageView;

    open spec fn deep_view(&self) -> MessageView {
        self.view()
    }
}

/// A file that a remote message refers to.
#[derive(Debug)]
pub struct MessageFile {
    pub file_id: String,
    pub filename: String,
    pub file_type: Option<String>,
    pub size: Option<u64>,
}

/// What a [`MessageFile`] holds, as mathematical values.
pub struct MessageFileView {
    pub file_id: Seq<char>,
    pub filename: Seq<char>,
    pub file_type: Option<Seq<char>>,
    pub size: Option<u64>,
}

impl View for MessageFile {
    type V = MessageFileView;

    open spec fn view(&self) -> MessageFileView {
        MessageFileView {
            file_id: self.file_id@,
            filename: self.filename@,
            file_type: self.file_type.deep_view(),
            size: self.size,
        }
    }
}

impl DeepView for MessageFile {
    type V = MessageFileView;

    open spec fn deep_view(&self) -> MessageFileView {
        self.view()
    }
}

impl Clone for MessageFile {
    fn clone(&self) -> (copy: MessageFile)
        ensures
            copy@ == self@,
    {
        MessageFile {
            file_id: self.file_id.clone(),
            filename: self.filename.clone(),
            file_type: copy_opt_string(&self.file_type),
            size: self.size,
        }
    }
}

} // verus!
