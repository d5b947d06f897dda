//! The sync engine: merging what the chat service reports into the store,
//! and settling what became of the entries of the outbox.

use vstd::prelude::*;

use crate::models::timestamp::{representable, rfc3339_seconds};
use crate::models::{
    CachePolicy, Conversation, ConversationView, Message, MessageAttachment,
    MessageAttachmentView, MessageQueueEntry, MessageQueueEntryView, MessageRole, MessageView,
    Metadata, ProcessingState, SyncState, Timestamp,
};
use crate::services::api_client::{ApiError, ApiErrorView};
use crate::services::conversations_service::{
    ConversationDetail, ConversationDetailView, ConversationSummary, ConversationSummaryView,
};
use crate::services::messages_service::{
    Message as RemoteMessage, MessageFileView, MessageResponse,
    MessageView as RemoteMessageView, SendMessageRequest, SendMessageRequestView,
};
use crate::services::row_mapping::{
    attachments_to_rows, conversation_to_row, message_to_row,
};
use crate::database::rows::row_of;
use crate::services::storage_laws::lemma_pending_entries_are_eligible;
use crate::services::storage_service::{
    budget_failure, StorageError, StorageErrorView, StorageService, StoreView,
};
use crate::services::sync_laws::{
    lemma_pending_entries_mirror_rows, lemma_settled_keeps_other_rows,
};
use crate::text::{copy_opt_string, prefixed};

verus! {

/// Seconds that a failed entry waits before it may be sent again.
pub const RETRY_BACKOFF_SECONDS: i64 = 300;

/// Why a sync operation failed.
#[derive(Debug, PartialEq, Eq)]
pub enum SyncError {
    /// The store could not answer.
    Storage(StorageError),
    /// The chat service could not be asked, or refused.
    Api(ApiError),
    /// What the chat service reported cannot be taken over.
    InvalidData(String),
}

/// What a [`SyncError`] holds, as mathematical values.
pub enum SyncErrorView {
    Storage(StorageErrorView),
    Api(ApiErrorView),
    InvalidData(Seq<char>),
}

impl View for SyncError {
    type V = SyncErrorView;

    open spec fn view(&self) -> SyncErrorView {
        match self {
            SyncError::Storage(error) => SyncErrorView::Storage(error@),
            SyncError::Api(error) => SyncErrorView::Api(error@),
            SyncError::InvalidData(message) => SyncErrorView::InvalidData(message@),
        }
    }
}

impl SyncErrorView {
    /// The error in words.
    pub open spec fn message(self) -> Seq<char> {
        match self {
            SyncErrorView::Storage(error) => "storage error: "@ + error.message(),
            SyncErrorView::Api(error) => "api error: "@ + error.message(),
            SyncErrorView::InvalidData(message) => "invalid data: "@ + message,
        }
    }
}

impl SyncError {
    /// The error in words.
    pub fn message(&self) -> (text: String)
        ensures
            text@ == self@.message(),
    {
        match self {
            SyncError::Storage(error) => prefixed("storage error: ", error.message().as_str()),
            SyncError::Api(error) => prefixed("api error: ", error.message().as_str()),
            SyncError::InvalidData(message) => prefixed("invalid data: ", message.as_str()),
        }
    }
}

/// What an operation of the sync engine returns.
pub type SyncResult<T> = Result<T, SyncError>;

/// A result of the sync engine, as mathematical values.
pub open spec fn viewed_sync<T: DeepView>(result: SyncResult<T>) -> Result<T::V, SyncErrorView> {
    match result {
        Ok(value) => Ok(value.deep_view()),
        Err(error) => Err(error@),
    }
}

/// What reading a remote timestamp gives; `field` names it in the error.
pub open spec fn remote_timestamp(value: Seq<char>, field: Seq<char>) -> Result<
    int,
    SyncErrorView,
> {
    match rfc3339_seconds(value) {
        Some(seconds) => Ok(seconds),
        None => Err(SyncErrorView::InvalidData("invalid "@ + field + " timestamp: "@ + value)),
    }
}

/// Reads a timestamp that the chat service reported. Only a strict RFC 3339
/// date-time is taken.
pub fn parse_timestamp(value: &str, field: &'static str) -> (parsed: SyncResult<Timestamp>)
    ensures
        viewed_sync(parsed) == remote_timestamp(value@, field@),
{
    match Timestamp::parse_rfc3339(value) {
        Some(instant) => Ok(instant),
        None => {
            let mut message = prefixed("invalid ", field);
            message.append(" timestamp: ");
            message.append(value);
            Err(SyncError::InvalidData(message))
        },
    }
}

/// The local record of a conversation that the server `server_id` reported:
/// synced, and with everything that only this client knows at its default.
pub open spec fn remote_conversation(summary: ConversationSummaryView, server_id: Seq<char>)
    -> Result<ConversationView, SyncErrorView> {
    match remote_timestamp(summary.created_at, "created_at"@) {
        Err(error) => Err(error),
        Ok(created_at) => match remote_timestamp(summary.updated_at, "updated_at"@) {
            Err(error) => Err(error),
            Ok(updated_at) => Ok(
                ConversationView {
                    id: summary.conversation_id,
                    title: summary.title,
                    created_at,
                    updated_at,
                    is_pinned: summary.is_pinned,
                    is_starred: summary.is_starred,
                    server_id,
                    sync_state: SyncState::Synced,
                    cache_policy: CachePolicy::Balanced,
                    message_count: 0,
                    last_message_preview: None,
                },
            ),
        },
    }
}

/// Takes over a conversation that the server `server_id` reported.
pub fn map_remote_conversation(summary: &ConversationSummary, server_id: &str) -> (mapped:
    SyncResult<Conversation>)
    ensures
        viewed_sync(mapped) == remote_conversation(summary@, server_id@),
{
    let created_at = parse_timestamp(summary.created_at.as_str(), "created_at")?;
    let updated_at = parse_timestamp(summary.updated_at.as_str(), "updated_at")?;
    Ok(
        Conversation {
            id: summary.conversation_id.clone(),
            title: summary.title.clone(),
            created_at,
            updated_at,
            is_pinned: summary.is_pinned,
            is_starred: summary.is_starred,
            server_id: server_id.to_owned(),
            sync_state: SyncState::Synced,
            cache_policy: CachePolicy::Balanced,
            message_count: 0,
            last_message_preview: None,
        },
    )
}

/// The attachment that a file of a remote message is taken over as.
pub open spec fn remote_attachment(file: MessageFileView) -> MessageAttachmentView {
    MessageAttachmentView {
        file_id: file.file_id,
        filename: file.filename,
        mime_type: file.file_type,
        size_bytes: file.size,
    }
}

/// The local record of a message that the chat service reported: synced and
/// complete, with the role that its sender tag names and without metadata.
pub open spec fn remote_message(remote: RemoteMessageView) -> Result<MessageView, SyncErrorView> {
    match remote_timestamp(remote.created_at, "created_at"@) {
        Err(error) => Err(error),
        Ok(timestamp) => match MessageRole::parse(remote.sender) {
            None => Err(SyncErrorView::InvalidData("unexpected sender: "@ + remote.sender)),
            Some(role) => Ok(
                MessageView {
                    id: remote.message_id,
                    conversation_id: remote.conversation_id,
                    content: remote.text,
                    role,
                    timestamp,
                    sync_state: SyncState::Synced,
                    attachments: Seq::new(
                        remote.files.len(),
                        |i: int| remote_attachment(remote.files[i]),
                    ),
                    metadata: "{}"@,
                    processing_state: ProcessingState::Complete,
                },
            ),
        },
    }
}

/// Takes over a message that the chat service reported.
pub fn map_remote_message(remote: &RemoteMessage) -> (mapped: SyncResult<Message>)
    ensures
        viewed_sync(mapped) == remote_message(remote@),
{
    let timestamp = parse_timestamp(remote.created_at.as_str(), "created_at")?;
    let role = match MessageRole::from_str(remote.sender.as_str()) {
        Ok(role) => role,
        Err(_) => {
            return Err(
                SyncError::InvalidData(prefixed("unexpected sender: ", remote.sender.as_str())),
            );
        },
    };
    let mut attachments: Vec<MessageAttachment> = Vec::new();
    let mut i: usize = 0;
    while i < remote.files.len()
        invariant
            i <= remote.files.len(),
            attachments.len() == i,
            forall|k: int|
                0 <= k < i ==> attachments[k]@ == remote_attachment(#[trigger] remote.files[k]@),
        decreases remote.files.len() - i,
    {
        let file = &remote.files[i];
        attachments.push(
            MessageAttachment {
                file_id: file.file_id.clone(),
                filename: file.filename.clone(),
                mime_type: copy_opt_string(&file.file_type),
                size_bytes: file.size,
            },
        );
        i += 1;
    }
    let message = Message {
        id: remote.message_id.clone(),
        conversation_id: remote.conversation_id.clone(),
        content: remote.text.clone(),
        role,
        timestamp,
        sync_state: SyncState::Synced,
        attachments,
        metadata: Metadata::empty(),
        processing_state: ProcessingState::Complete,
    };
    assert(message@.attachments =~= remote_message(remote@)->Ok_0.attachments);
    Ok(message)
}

/// The local records of the messages that the chat service reported. The
/// messages are taken over in order, and the first one that cannot be
/// decides the error.
pub open spec fn remote_messages(remotes: Seq<RemoteMessageView>) -> Result<
    Seq<MessageView>,
    SyncErrorView,
>
    decreases remotes.len(),
{
    if remotes.len() == 0 {
        Ok(Seq::empty())
    } else {
        match remote_messages(remotes.drop_last()) {
            Err(error) => Err(error),
            Ok(messages) => match remote_message(remotes.last()) {
                Err(error) => Err(error),
                Ok(message) => Ok(messages.push(message)),
            },
        }
    }
}

/// A message that cannot be taken over fails every list of messages that
/// goes on beyond it.
pub proof fn lemma_remote_messages_fails(remotes: Seq<RemoteMessageView>, upto: int)
    requires
        0 <= upto <= remotes.len(),
        remote_messages(remotes.take(upto)) is Err,
    ensures
        remote_messages(remotes) == remote_messages(remotes.take(upto)),
    decreases remotes.len() - upto,
{
    if upto == remotes.len() {
        assert(remotes.take(upto) =~= remotes);
    } else {
        assert(remotes.drop_last().take(upto) =~= remotes.take(upto));
        lemma_remote_messages_fails(remotes.drop_last(), upto);
    }
}

/// Takes over the messages that the chat service reported.
pub fn map_remote_messages(remotes: &Vec<RemoteMessage>) -> (mapped: SyncResult<Vec<Message>>)
    ensures
        viewed_sync(mapped) == remote_messages(remotes.deep_view()),
{
    let ghost all = remotes.deep_view();
    let mut messages: Vec<Message> = Vec::new();
    let mut i: usize = 0;
    assert(all.take(0) =~= Seq::empty());
    assert(messages.deep_view() =~= Seq::empty());
    while i < remotes.len()
        invariant
            i <= remotes.len(),
            all == remotes.deep_view(),
            remote_messages(all.take(i as int)) == Ok::<Seq<MessageView>, SyncErrorView>(
                messages.deep_view(),
            ),
        decreases remotes.len() - i,
    {
        let ghost taken = messages.deep_view();
        proof {
            assert(all.take(i + 1).drop_last() =~= all.take(i as int));
            assert(all.take(i + 1).last() == all[i as int]);
        }
        let message = match map_remote_message(&remotes[i]) {
            Ok(message) => message,
            Err(error) => {
                proof {
                    assert(remote_message(all.take(i + 1).last()) is Err);
                    assert(remote_messages(all.take(i + 1)) is Err);
                    lemma_remote_messages_fails(all, i + 1);
                }
                return Err(error);
            },
        };
        messages.push(message);
        assert(messages.deep_view() =~= taken.push(message@));
        i += 1;
    }
    assert(all.take(remotes.len() as int) =~= all);
    Ok(messages)
}

/// The request that sends a queue entry: its text for its conversation,
/// with the paths of its queued files if it has any.
pub open spec fn request_for(entry: MessageQueueEntryView) -> SendMessageRequestView {
    SendMessageRequestView {
        text: entry.message_content,
        conversation_id: entry.conversation_id,
        parent_message_id: None,
        model: None,
        endpoint: None,
        files: if entry.attachments.len() == 0 {
            None
        } else {
            Some(Seq::new(entry.attachments.len(), |i: int| entry.attachments[i].file_path))
        },
        preset_id: None,
    }
}

/// Builds the request that sends a queue entry.
pub fn replay_request(entry: &MessageQueueEntry) -> (request: SendMessageRequest)
    ensures
        request@ == request_for(entry@),
{
    let files = if entry.attachments.len() == 0 {
        None
    } else {
        let mut paths: Vec<String> = Vec::new();
        let mut i: usize = 0;
        while i < entry.attachments.len()
            invariant
                i <= entry.attachments.len(),
                paths.len() == i,
                forall|k: int| 0 <= k < i ==> paths[k]@ == entry.attachments[k]@.file_path,
            decreases entry.attachments.len() - i,
        {
            paths.push(entry.attachments[i].file_path.clone());
            i += 1;
        }
        assert(paths.deep_view() =~= Seq::new(
            entry@.attachments.len(),
            |i: int| entry@.attachments[i].file_path,
        ));
        Some(paths)
    };
    SendMessageRequest {
        text: entry.message_content.clone(),
        conversation_id: entry.conversation_id.clone(),
        parent_message_id: None,
        model: None,
        endpoint: None,
        files,
        preset_id: None,
    }
}

/// What writing every message in order gives: the store after the last
/// write, or the refusal of the first message that the store does not take.
pub open spec fn messages_written(store: StoreView, messages: Seq<MessageView>) -> Result<
    StoreView,
    StorageErrorView,
>
    decreases messages.len(),
{
    if messages.len() == 0 {
        Ok(store)
    } else {
        let message = messages.last();
        match messages_written(store, messages.drop_last()) {
            Err(error) => Err(error),
            Ok(before) => before.message_written(
                message_to_row(message),
                attachments_to_rows(message.id, message.attachments),
            ),
        }
    }
}

/// A message that is refused fails every list of messages that goes on
/// beyond it.
pub proof fn lemma_messages_written_fails(store: StoreView, messages: Seq<MessageView>, upto: int)
    requires
        0 <= upto <= messages.len(),
        messages_written(store, messages.take(upto)) is Err,
    ensures
        messages_written(store, messages) == messages_written(store, messages.take(upto)),
    decreases messages.len() - upto,
{
    if upto == messages.len() {
        assert(messages.take(upto) =~= messages);
    } else {
        assert(messages.drop_last().take(upto) =~= messages.take(upto));
        lemma_messages_written_fails(store, messages.drop_last(), upto);
    }
}

/// The store after what the server `server_id` reported of a conversation
/// was merged into it: the conversation and each of its messages overwrite
/// their local records. What cannot be taken over is an error, and so is a
/// message that the store refuses.
pub open spec fn merged(store: StoreView, server_id: Seq<char>, remote: ConversationDetailView)
    -> Result<StoreView, SyncErrorView> {
    match remote_conversation(remote.summary, server_id) {
        Err(error) => Err(error),
        Ok(conversation) => match remote_messages(remote.messages) {
            Err(error) => Err(error),
            Ok(messages) => match messages_written(
                store.with_conversation(conversation_to_row(conversation)),
                messages,
            ) {
                Ok(after) => Ok(after),
                Err(error) => Err(SyncErrorView::Storage(error)),
            },
        },
    }
}

/// What a failed send leaves in the error column of the entry.
pub open spec fn failure_note(error: ApiErrorView) -> Seq<char> {
    SyncErrorView::Api(error).message()
}

/// The store after a queue entry was sent with the given outcome at `now`.
/// A confirmed send removes the entry. A failed send counts one retry, bars
/// the entry for five minutes from `now`, notes the failure and marks the
/// entry as failed.
pub open spec fn settled(
    store: StoreView,
    entry: MessageQueueEntryView,
    failure: Option<ApiErrorView>,
    now: int,
) -> StoreView {
    match failure {
        None => store.without_queue_entry(entry.id),
        Some(error) => store.with_retry(
            entry.id,
            (entry.retry_count + 1) as i64,
            Some((now + RETRY_BACKOFF_SECONDS) as i64),
            Some(failure_note(error)),
            ProcessingState::Failed.tag(),
        ),
    }
}

/// Whether the store takes the settling of a queue entry: a failed send
/// counts one more retry, which the entry in the store must have been
/// given.
pub open spec fn settles(
    store: StoreView,
    entry: MessageQueueEntryView,
    failure: Option<ApiErrorView>,
) -> bool {
    failure is Some ==> store.takes_retry(entry.id, (entry.retry_count + 1) as i64)
}

/// The failure in the outcome of a send, if it is one.
pub open spec fn failure_of(outcome: Result<MessageResponse, ApiError>) -> Option<ApiErrorView> {
    match outcome {
        Ok(_) => None,
        Err(error) => Some(error@),
    }
}

/// What a sync of a conversation reports and leaves in the store, given
/// what asking the chat service for the conversation gave. A refusal of the
/// service, or a report that cannot be taken over, leaves the store
/// untouched.
pub open spec fn synced(
    store: StoreView,
    server_id: Seq<char>,
    fetched: Result<ConversationDetail, ApiError>,
) -> (Option<SyncErrorView>, StoreView) {
    match fetched {
        Err(error) => (Some(SyncErrorView::Api(error@)), store),
        Ok(remote) => match merged(store, server_id, remote@) {
            Ok(after) => (None, after),
            Err(error) => (Some(error), store),
        },
    }
}

/// The store after each of the entries was sent and settled in order;
/// `failures` holds for each entry what its send failed with, if it did.
pub open spec fn settled_all(
    store: StoreView,
    entries: Seq<MessageQueueEntryView>,
    failures: Seq<Option<ApiErrorView>>,
    now: int,
) -> StoreView
    decreases entries.len(),
{
    if entries.len() == 0 || failures.len() != entries.len() {
        store
    } else {
        settled(
            settled_all(store, entries.drop_last(), failures.drop_last(), now),
            entries.last(),
            failures.last(),
            now,
        )
    }
}

/// Whether `send`, handed the request for `entry`, can have ended with the
/// given failure, or without one.
pub open spec fn sent_by<F: Fn(&SendMessageRequest) -> Result<MessageResponse, ApiError>>(
    send: F,
    entry: MessageQueueEntryView,
    failure: Option<ApiErrorView>,
) -> bool {
    exists|request: SendMessageRequest, outcome: Result<MessageResponse, ApiError>|
        request@ == request_for(entry) && #[trigger] send.ensures((&request,), outcome)
            && failure_of(outcome) == failure
}

/// Hands on what the store answered: its error becomes an error of the sync.
fn stored(done: Result<(), StorageError>) -> (handed: SyncResult<()>)
    ensures
        match done {
            Ok(_) => handed is Ok,
            Err(error) => handed is Err && handed->Err_0@ == SyncErrorView::Storage(error@),
        },
{
    match done {
        Ok(()) => Ok(()),
        Err(error) => Err(SyncError::Storage(error)),
    }
}

/// The sync engine. It owns the store that it keeps in step with the chat
/// service.
pub struct SyncService {
    storage: StorageService,
}

impl View for SyncService {
    type V = StoreView;

    closed spec fn view(&self) -> StoreView {
        self.storage@
    }
}

impl SyncService {
    /// An engine over `storage`.
    pub fn new(storage: StorageService) -> (engine: SyncService)
        ensures
            engine@ == storage@,
    {
        SyncService { storage }
    }

    /// The store, to read from.
    pub fn storage(&self) -> (storage: &StorageService)
        ensures
            storage@ == self@,
    {
        &self.storage
    }

    /// The store, to write to.
    pub fn storage_mut(&mut self) -> (storage: &mut StorageService)
        ensures
            storage@ == old(self)@,
            final(self)@ == final(storage)@,
    {
        &mut self.storage
    }

    /// Gives the store back.
    pub fn into_storage(self) -> (storage: StorageService)
        ensures
            storage@ == self@,
    {
        self.storage
    }

    /// Merges what the server `server_id` reported of a conversation into
    /// the store, all of it or nothing. Everything is taken over before
    /// anything is written: where a timestamp or a sender cannot be read,
    /// the store stays untouched. Where the store refuses a message, what
    /// was written before it is taken back.
    pub fn merge_remote_conversation(&mut self, server_id: &str, remote: &ConversationDetail) -> (done:
        SyncResult<()>)
        ensures
            match merged(old(self)@, server_id@, remote@) {
                Ok(store) => done is Ok && final(self)@ == store,
                Err(error) => done is Err && done->Err_0@ == error && final(self)@ == old(self)@,
            },
    {
        let conversation = map_remote_conversation(&remote.summary, server_id)?;
        let messages = map_remote_messages(&remote.messages)?;
        let backup = self.storage.clone();
        stored(self.storage.upsert_conversation(&conversation))?;
        let ghost base = self@;
        let ghost all = messages.deep_view();
        let mut i: usize = 0;
        assert(all.take(0) =~= Seq::empty());
        while i < messages.len()
            invariant
                i <= messages.len(),
                all == messages.deep_view(),
                backup@ == old(self)@,
                remote_conversation(remote@.summary, server_id@) == Ok::<
                    ConversationView,
                    SyncErrorView,
                >(conversation@),
                remote_messages(remote@.messages) == Ok::<Seq<MessageView>, SyncErrorView>(all),
                base == old(self)@.with_conversation(conversation_to_row(conversation@)),
                messages_written(base, all.take(i as int)) == Ok::<StoreView, StorageErrorView>(
                    self@,
                ),
            decreases messages.len() - i,
        {
            proof {
                assert(all.take(i + 1).drop_last() =~= all.take(i as int));
                assert(all.take(i + 1).last() == all[i as int]);
            }
            match self.storage.upsert_message(&messages[i]) {
                Ok(()) => {},
                Err(error) => {
                    proof {
                        assert(messages_written(base, all.take(i + 1)) is Err);
                        lemma_messages_written_fails(base, all, i + 1);
                    }
                    self.storage = backup;
                    return Err(SyncError::Storage(error));
                },
            }
            i += 1;
        }
        assert(all.take(messages.len() as int) =~= all);
        Ok(())
    }

    /// Pulls the conversation `conversation_id` of the server `server_id`
    /// and merges it into the store. `fetch` asks the chat service; whatever
    /// it answers, the sync reports and leaves what [`synced`] says for that
    /// answer.
    pub fn sync_conversation<F: FnOnce(&str) -> Result<ConversationDetail, ApiError>>(
        &mut self,
        server_id: &str,
        conversation_id: &str,
        fetch: F,
    ) -> (done: SyncResult<()>)
        requires
            fetch.requires((conversation_id,)),
        ensures
            exists|fetched: Result<ConversationDetail, ApiError>|
                {
                    &&& #[trigger] fetch.ensures((conversation_id,), fetched)
                    &&& final(self)@ == synced(old(self)@, server_id@, fetched).1
                    &&& match synced(old(self)@, server_id@, fetched).0 {
                        None => done is Ok,
                        Some(error) => done is Err && done->Err_0@ == error,
                    }
                },
    {
        match fetch(conversation_id) {
            Err(error) => Err(SyncError::Api(error)),
            Ok(remote) => self.merge_remote_conversation(server_id, &remote),
        }
    }

    /// Replays the outbox at `now`: every entry that may be sent is handed
    /// to `send` as a request and settled by what came back, one after the
    /// other and each for itself. A failed send is bookkeeping, not an
    /// error of the pass; only a queue that cannot be read is.
    pub fn process_outbox<F: Fn(&SendMessageRequest) -> Result<MessageResponse, ApiError>>(
        &mut self,
        now: Timestamp,
        send: F,
    ) -> (done: SyncResult<()>)
        requires
            representable(now@ + RETRY_BACKOFF_SECONDS),
            forall|request: &SendMessageRequest| send.requires((request,)),
        ensures
            match old(self)@.pending_queue(now@) {
                Err(error) => done is Err && done->Err_0@ == SyncErrorView::Storage(error)
                    && final(self)@ == old(self)@,
                Ok(pending) => done is Ok && exists|failures: Seq<Option<ApiErrorView>>|
                    {
                        &&& failures.len() == pending.len()
                        &&& forall|i: int|
                            0 <= i < pending.len() ==> sent_by(
                                send,
                                #[trigger] pending[i],
                                failures[i],
                            )
                        &&& final(self)@ == #[trigger] settled_all(
                            old(self)@,
                            pending,
                            failures,
                            now@,
                        )
                    },
            },
    {
        let queue = match self.storage.list_pending_queue(now) {
            Ok(queue) => queue,
            Err(error) => {
                return Err(SyncError::Storage(error));
            },
        };
        let ghost start = self@;
        let ghost pending = queue.deep_view();
        let ghost mut failures: Seq<Option<ApiErrorView>> = Seq::empty();
        proof {
            lemma_pending_entries_are_eligible(start, now@);
            lemma_pending_entries_mirror_rows(start, now@);
            assert(pending.take(0) =~= Seq::empty());
        }
        let mut i: usize = 0;
        while i < queue.len()
            invariant
                i <= queue.len(),
                pending == queue.deep_view(),
                representable(now@ + RETRY_BACKOFF_SECONDS),
                forall|request: &SendMessageRequest| send.requires((request,)),
                forall|k: int| 0 <= k < pending.len() ==> (#[trigger] pending[k]).can_retry(now@),
                forall|k: int|
                    0 <= k < pending.len() ==> (row_of(start.queue, (#[trigger] pending[k]).id) matches Some(
                        row,
                    ) && row.max_retries == pending[k].max_retries),
                forall|j: int, k: int|
                    0 <= j < pending.len() && 0 <= k < pending.len() && (#[trigger] pending[j]).id
                        == (#[trigger] pending[k]).id ==> j == k,
                forall|k: int|
                    i <= k < pending.len() ==> row_of(self@.queue, (#[trigger] pending[k]).id)
                        == row_of(start.queue, pending[k].id),
                failures.len() == i,
                forall|k: int| 0 <= k < i ==> sent_by(send, #[trigger] pending[k], failures[k]),
                self@ == settled_all(start, pending.take(i as int), failures, now@),
            decreases queue.len() - i,
        {
            let entry = &queue[i];
            assert(pending[i as int] == entry@);
            let request = replay_request(entry);
            let outcome = send(&request);
            let ghost failure = failure_of(outcome);
            let ghost before = self@;
            proof {
                use_type_invariant(&self.storage);
                assert(sent_by(send, entry@, failure));
                assert(pending.take(i + 1).drop_last() =~= pending.take(i as int));
                assert(pending.take(i + 1).last() == entry@);
                assert(failures.push(failure).drop_last() =~= failures);
                assert(row_of(before.queue, entry@.id) == row_of(start.queue, entry@.id));
                assert(settles(before, entry@, failure));
                assert forall|k: int| i < k < pending.len() implies row_of(
                    settled(before, entry@, failure, now@).queue,
                    (#[trigger] pending[k]).id,
                ) == row_of(start.queue, pending[k].id) by {
                    lemma_settled_keeps_other_rows(before, entry@, failure, now@, pending[k].id);
                }
            }
            self.settle_queue_entry(entry, &outcome, now)?;
            proof {
                failures = failures.push(failure);
            }
            i += 1;
        }
        assert(pending.take(queue.len() as int) =~= pending);
        Ok(())
    }

    /// Settles a queue entry after it was sent at `now`: removes it where
    /// the send was confirmed, and reschedules it where the send failed. A
    /// failure that would count more retries than the entry in the store was
    /// given is refused by the store, which then stays as it was.
    pub fn settle_queue_entry(
        &mut self,
        entry: &MessageQueueEntry,
        outcome: &Result<MessageResponse, ApiError>,
        now: Timestamp,
    ) -> (done: SyncResult<()>)
        requires
            entry@.retry_count < u32::MAX,
            representable(now@ + RETRY_BACKOFF_SECONDS),
        ensures
            if settles(old(self)@, entry@, failure_of(*outcome)) {
                done is Ok && final(self)@ == settled(
                    old(self)@,
                    entry@,
                    failure_of(*outcome),
                    now@,
                )
            } else {
                done matches Err(refusal) && refusal@ == SyncErrorView::Storage(budget_failure())
                    && final(self)@ == old(self)@
            },
    {
        match outcome {
            Ok(_) => stored(self.storage.delete_queue_entry(entry.id.as_str())),
            Err(error) => {
                let next_retry = now.checked_add_seconds(RETRY_BACKOFF_SECONDS);
                let retries = entry.retry_count + 1;
                let note = prefixed("api error: ", error.message().as_str());
                stored(
                    self.storage.update_queue_retry(
                        entry.id.as_str(),
                        retries,
                        next_retry,
                        Some(note),
                        ProcessingState::Failed,
                    ),
                )
            },
        }
    }
}

} // verus!
