//! The outbox: messages queued while offline.

use vstd::prelude::*;

use crate::models::{ProcessingState, Timestamp};
use crate::text::copy_opt_string;

verus! {

/// A local file queued for upload alongside an offline message.
#[derive(Debug, PartialEq, Eq)]
pub struct QueuedAttachment {
    pub file_path: String,
    pub mime_type: Option<String>,
    pub size_bytes: Option<u64>,
}

/// What a [`QueuedAttachment`] holds, as mathematical values.
pub struct QueuedAttachmentView {
    pub file_path: Seq<char>,
    pub mime_type: Option<Seq<char>>,
    pub size_bytes: Option<u64>,
}

impl View for QueuedAttachment {
    type V = QueuedAttachmentView;

    open spec fn view(&self) -> QueuedAttachmentView {
        QueuedAttachmentView {
            file_path: self.file_path@,
            mime_type: self.mime_type.deep_view(),
            size_bytes: self.size_bytes,
        }
    }
}

impl DeepView for QueuedAttachment {
    type V = QueuedAttachmentView;

    open spec fn deep_view(&self) -> QueuedAttachmentView {
        self.view()
    }
}

impl Clone for QueuedAttachment {
    fn clone(&self) -> (copy: QueuedAttachment)
        ensures
            copy@ == self@,
    {
        QueuedAttachment {
            file_path: self.file_path.clone(),
            mime_type: copy_opt_string(&self.mime_type),
            size_bytes: self.size_bytes,
        }
    }
}

/// A copy of a list of queued attachments.
pub fn copy_queued_attachments(attachments: &Vec<QueuedAttachment>) -> (copy: Vec<
    QueuedAttachment,
>)
    ensures
        copy.deep_view() == attachments.deep_view(),
{
    let mut copy: Vec<QueuedAttachment> = Vec::new();
    let mut i: usize = 0;
    while i < attachments.len()
        invariant
            i <= attachments.len(),
            copy.len() == i,
            forall|k: int| 0 <= k < i ==> copy[k]@ == attachments[k]@,
        decreases attachments.len() - i,
    {
        copy.push(attachments[i].clone());
        i += 1;
    }
    assert(copy.deep_view() =~= attachments.deep_view());
    copy
}

/// An outbox entry: a message that waits to be sent.
///
/// An entry is expected to keep `retry_count` at or below `max_retries`; see
/// [`MessageQueueEntryView::within_budget`].
#[derive(Debug, PartialEq, Eq)]
pub struct MessageQueueEntry {
    pub id: String,
    pub conversation_id: String,
    pub message_content: String,
    pub attachments: Vec<QueuedAttachment>,
    pub created_at: Timestamp,
    pub retry_count: u32,
    pub max_retries: u32,
    pub next_retry_at: Option<Timestamp>,
    pub error_message: Option<String>,
    pub processing_state: ProcessingState,
}

/// What a [`MessageQueueEntry`] holds, as mathematical values.
pub struct MessageQueueEntryView {
    pub id: Seq<char>,
    pub conversation_id: Seq<char>,
    pub message_content: Seq<char>,
    pub attachments: Seq<QueuedAttachmentView>,
    pub created_at: int,
    pub retry_count: u32,
    pub max_retries: u32,
    pub next_retry_at: Option<int>,
    pub error_message: Option<Seq<char>>,
    pub processing_state: ProcessingState,
}

impl View for MessageQueueEntry {
    type V = MessageQueueEntryView;

    open spec fn view(&self) -> MessageQueueEntryView {
        MessageQueueEntryView {
            id: self.id@,
            conversation_id: self.conversation_id@,
            message_content: self.message_content@,
            attachments: self.attachments.deep_view(),
            created_at: self.created_at@,
            retry_count: self.retry_count,
            max_retries: self.max_retries,
            next_retry_at: self.next_retry_at.deep_view(),
            error_message: self.error_message.deep_view(),
            processing_state: self.processing_state,
        }
    }
}

impl DeepView for MessageQueueEntry {
    type V = MessageQueueEntryView;

    open spec fn deep_view(&self) -> MessageQueueEntryView {
        self.view()
    }
}

impl Clone for MessageQueueEntry {
    fn clone(&self) -> (copy: MessageQueueEntry)
        ensures
            copy@ == self@,
    {
        MessageQueueEntry {
            id: self.id.clone(),
            conversation_id: self.conversation_id.clone(),
            message_content: self.message_content.clone(),
            attachments: copy_queued_attachments(&self.attachments),
            created_at: self.created_at,
            retry_count: self.retry_count,
            max_retries: self.max_retries,
            next_retry_at: self.next_retry_at,
            error_message: copy_opt_string(&self.error_message),
            processing_state: self.processing_state,
        }
    }
}

impl MessageQueueEntryView {
    /// Whether the entry may be sent at `now`: it has retries left, and the
    /// time before which it must not be retried, if there is one, has come.
    pub open spec fn can_retry(self, now: int) -> bool {
        &&& self.retry_count < self.max_retries
        &&& (self.next_retry_at matches Some(at) ==> at <= now)
    }

    /// Whether the entry has used no more retries than it was given.
    pub open spec fn within_budget(self) -> bool {
        self.retry_count <= self.max_retries
    }
}

impl MessageQueueEntry {
    /// Whether the entry may be sent at `now`.
    pub fn can_retry(&self, now: Timestamp) -> (eligible: bool)
        ensures
            eligible == self@.can_retry(now@),
    {
        self.retry_count < self.max_retries && match self.next_retry_at {
            Some(at) => at.is_at_or_before(&now),
            None => true,
        }
    }
}

} // verus!
