//! Messages, their attachments and their free-form metadata.

use serde_json::Value;
use vstd::prelude::*;

use crate::models::{MessageRole, ProcessingState, SyncState, Timestamp};
use crate::text::copy_opt_string;

verus! {

/// What serde_json says against reading `text` as one JSON object: `None`
/// where it reads the text, else its complaint.
pub uninterp spec fn json_object_complaint(text: Seq<char>) -> Option<Seq<char>>;

/// Whether serde_json reads `text` as one JSON object.
pub open spec fn is_json_object(text: Seq<char>) -> bool {
    json_object_complaint(text) is None
}

/// Reads `text` with `serde_json::from_str` as a `Map<String, Value>` and
/// drops the map; a failure is handed on as its message.
///
/// Trusted: whether the text is accepted, and the complaint where it is not,
/// depend on the text alone.
#[verifier::external_body]
fn read_json_object(text: &str) -> (read: Result<(), String>)
    ensures
        match read {
            Ok(_) => json_object_complaint(text@) is None,
            Err(complaint) => json_object_complaint(text@) == Some(complaint@),
        },
{
    serde_json::from_str::<serde_json::Map<String, Value>>(text).map(|_| ()).map_err(|err| err.to_string())
}

/// Writes the empty object with `Value::to_string`.
///
/// Trusted: serde_json writes the empty object as `{}`, and reads that back
/// as an object.
#[verifier::external_body]
fn empty_json_object() -> (text: String)
    ensures
        text@ == "{}"@,
        json_object_complaint(text@) is None,
{
    Value::Object(serde_json::Map::new()).to_string()
}

/// Free-form metadata of a message: a JSON object from keys to values, kept
/// as the text that serde_json reads it from. As an object its keys are
/// unique.
#[derive(Debug, PartialEq, Eq)]
pub struct Metadata {
    json: String,
}

impl View for Metadata {
    type V = Seq<char>;

    closed spec fn view(&self) -> Seq<char> {
        self.json@
    }
}

impl DeepView for Metadata {
    type V = Seq<char>;

    open spec fn deep_view(&self) -> Seq<char> {
        self.view()
    }
}

impl Clone for Metadata {
    fn clone(&self) -> (copy: Metadata)
        ensures
            copy@ == self@,
    {
        proof {
            use_type_invariant(self);
        }
        Metadata { json: self.json.clone() }
    }
}

impl Metadata {
    /// Metadata always holds one JSON object.
    #[verifier::type_invariant]
    pub open spec fn holds_an_object(self) -> bool {
        is_json_object(self@)
    }

    /// Metadata without any key.
    pub fn empty() -> (metadata: Metadata)
        ensures
            metadata@ == "{}"@,
    {
        Metadata { json: empty_json_object() }
    }

    /// Takes `text` as metadata if it is one JSON object; otherwise hands
    /// back what serde_json said against it.
    pub fn parse(text: &str) -> (parsed: Result<Metadata, String>)
        ensures
            match parsed {
                Ok(metadata) => is_json_object(text@) && metadata@ == text@,
                Err(complaint) => json_object_complaint(text@) == Some(complaint@),
            },
    {
        match read_json_object(text) {
            Ok(()) => Ok(Metadata { json: text.to_owned() }),
            Err(message) => Err(message),
        }
    }

    /// The JSON text of the object.
    pub fn as_str(&self) -> (text: &str)
        ensures
            text@ == self@,
            is_json_object(text@),
    {
        proof {
            use_type_invariant(self);
        }
        self.json.as_str()
    }
}

/// A file attached to a message. It belongs to that one message.
#[derive(Debug, PartialEq, Eq)]
pub struct MessageAttachment {
    pub file_id: String,
    pub filename: String,
    pub mime_type: Option<String>,
    pub size_bytes: Option<u64>,
}

/// What a [`MessageAttachment`] holds, as mathematical values.
pub struct MessageAttachmentView {
    pub file_id: Seq<char>,
    pub filename: Seq<char>,
    pub mime_type: Option<Seq<char>>,
    pub size_bytes: Option<u64>,
}

impl View for MessageAttachment {
    type V = MessageAttachmentView;

    open spec fn view(&self) -> MessageAttachmentView {
        MessageAttachmentView {
            file_id: self.file_id@,
            filename: self.filename@,
            mime_type: self.mime_type.deep_view(),
            size_bytes: self.size_bytes,
        }
    }
}

impl DeepView for MessageAttachment {
    type V = MessageAttachmentView;

    open spec fn deep_view(&self) -> MessageAttachmentView {
        self.view()
    }
}

impl Clone for MessageAttachment {
    fn clone(&self) -> (copy: MessageAttachment)
        ensures
            copy@ == self@,
    {
        MessageAttachment {
            file_id: self.file_id.clone(),
            filename: self.filename.clone(),
            mime_type: copy_opt_string(&self.mime_type),
            size_bytes: self.size_bytes,
        }
    }
}

impl MessageAttachment {
    /// An attachment of which only the file and its name are known.
    pub fn new(file_id: &str, filename: &str) -> (attachment: MessageAttachment)
        ensures
            attachment@ == (MessageAttachmentView {
                file_id: file_id@,
                filename: filename@,
                mime_type: None,
                size_bytes: None,
            }),
    {
        MessageAttachment {
            file_id: file_id.to_owned(),
            filename: filename.to_owned(),
            mime_type: None,
            size_bytes: None,
        }
    }
}

/// A copy of a list of attachments.
pub fn copy_attachments(attachments: &Vec<MessageAttachment>) -> (copy: Vec<MessageAttachment>)
    ensures
        copy.deep_view() == attachments.deep_view(),
{
    let mut copy: Vec<MessageAttachment> = Vec::new();
    let mut i: usize = 0;
    while i < attachments.len()
        invariant
            i <= attachments.len(),
            copy.len() == i,
            forall|k: int| 0 <= k < i ==> copy[k]@ == attachments[k]@,
        decreases attachments.len() - i,
    {
        copy.push(attachments[i].clone());
        i += 1;
    }
    assert(copy.deep_view() =~= attachments.deep_view());
    copy
}

/// A message of a conversation, with its attachments.
#[derive(Debug, PartialEq, Eq)]
pub struct Message {
    pub id: String,
    pub conversation_id: String,
    pub content: String,
    pub role: MessageRole,
    pub timestamp: Timestamp,
    pub sync_state: SyncState,
    pub attachments: Vec<MessageAttachment>,
    pub metadata: Metadata,
    pub processing_state: ProcessingState,
}

/// What a [`Message`] holds, as mathematical values.
pub struct MessageView {
    pub id: Seq<char>,
    pub conversation_id: Seq<char>,
    pub content: Seq<char>,
    pub role: MessageRole,
    pub timestamp: int,
    pub sync_state: SyncState,
    pub attachments: Seq<MessageAttachmentView>,
    pub metadata: Seq<char>,
    pub processing_state: ProcessingState,
}

impl View for Message {
    type V = MessageView;

    open spec fn view(&self) -> MessageView {
        MessageView {
            id: self.id@,
            conversation_id: self.conversation_id@,
            content: self.content@,
            role: self.role,
            timestamp: self.timestamp@,
            sync_state: self.sync_state,
            attachments: self.attachments.deep_view(),
            metadata: self.metadata@,
            processing_state: self.processing_state,
        }
    }
}

impl DeepView for Message {
    type V = MessageView;

    open spec fn deep_view(&self) -> MessageView {
        self.view()
    }
}

impl Clone for Message {
    fn clone(&self) -> (copy: Message)
        ensures
            copy@ == self@,
    {
        Message {
            id: self.id.clone(),
            conversation_id: self.conversation_id.clone(),
            content: self.content.clone(),
            role: self.role,
            timestamp: self.timestamp,
            sync_state: self.sync_state,
            attachments: copy_attachments(&self.attachments),
            metadata: self.metadata.clone(),
            processing_state: self.processing_state,
        }
    }
}

impl Message {
    /// Appends one attachment.
    pub fn add_attachment(&mut self, attachment: MessageAttachment)
        ensures
            final(self)@ == (MessageView {
                attachments: old(self)@.attachments.push(attachment@),
                ..old(self)@
            }),
    {
        self.attachments.push(attachment);
        assert(self.attachments.deep_view() =~= old(self).attachments.deep_view().push(
            attachment@,
        ));
    }
}

} // verus!
