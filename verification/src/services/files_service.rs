//! What the files endpoint of the chat service exchanges, and what an upload
//! posts besides the bytes of the file.

use std::path::PathBuf;

use mime::Mime;
use vstd::prelude::*;

use crate::services::api_client::{ApiError, ApiErrorView};
use crate::text::prefixed;

verus! {

/// Which page of files to list.
#[derive(Debug, Default)]
pub struct ListFilesQuery {
    pub page_size: Option<u32>,
    pub cursor: Option<String>,
    pub source: Option<String>,
}

/// A local file to upload, and what it is for.
#[derive(Debug)]
pub struct FileUploadRequest {
    pub file_path: PathBuf,
    pub file_name: Option<String>,
    pub mime_type: Option<String>,
    pub usage: Option<String>,
    pub context: Option<String>,
    pub assistant_id: Option<String>,
    pub agent_id: Option<String>,
    pub conversation_id: Option<String>,
    pub message_id: Option<String>,
}

/// The ids of the files to delete in one call.
#[derive(Debug)]
pub struct BatchDeleteRequest {
    pub files: Vec<String>,
}

/// The text that the mime crate keeps for a media type that it reads from
/// `text`, or `None` where it refuses the text.
pub uninterp spec fn media_type_text(text: Seq<char>) -> Option<Seq<char>>;

/// Reads a media type with `Mime::from_str` and hands back the text that
/// `Mime::as_ref` gives for it.
///
/// Trusted: whether the text is accepted, and the text that is kept, depend
/// on the text alone.
#[verifier::external_body]
fn read_media_type(text: &str) -> (read: Option<String>)
    ensures
        match read {
            Some(kept) => media_type_text(text@) == Some(kept@),
            None => media_type_text(text@) is None,
        },
{
    text.parse::<Mime>().ok().map(|media_type| media_type.as_ref().to_owned())
}

/// The last component of a path with `Path::file_name`, handed on as a path
/// of its own. What counts as the last component is the platform's own
/// rule, so nothing is said of the result.
#[verifier::external_body]
fn last_component(path: &PathBuf) -> (component: Option<PathBuf>) {
    path.file_name().map(PathBuf::from)
}

/// A path as text with `Path::to_str`: `None` where the path is no valid
/// Unicode. How a path is encoded is the platform's own rule, so nothing is
/// said of the result.
#[verifier::external_body]
fn path_text(path: &PathBuf) -> (text: Option<String>) {
    path.to_str().map(|text| text.to_owned())
}

/// One text field of an upload form.
#[derive(Debug, PartialEq, Eq)]
pub struct FormField {
    pub name: String,
    pub value: String,
}

/// What a [`FormField`] holds, as mathematical values.
pub struct FormFieldView {
    pub name: Seq<char>,
    pub value: Seq<char>,
}

impl View for FormField {
    type V = FormFieldView;

    open spec fn view(&self) -> FormFieldView {
        FormFieldView { name: self.name@, value: self.value@ }
    }
}

impl DeepView for FormField {
    type V = FormFieldView;

    open spec fn deep_view(&self) -> FormFieldView {
        self.view()
    }
}

/// What an upload posts besides the bytes of the file.
#[derive(Debug, PartialEq, Eq)]
pub struct UploadPlan {
    /// The name under which the file is posted.
    pub file_name: String,
    /// The media type of the file, where one was asked for.
    pub media_type: Option<String>,
    /// The text fields of the form, in the order in which they are posted.
    pub fields: Vec<FormField>,
}

/// The name that a file is posted under where the request names none: the
/// last component of its path, or `upload.bin` where the path has none.
pub open spec fn name_or_default(component: Option<Seq<char>>) -> Seq<char> {
    match component {
        Some(name) => name,
        None => "upload.bin"@,
    }
}

/// The form field for a value, if there is one.
pub open spec fn optional_field(name: Seq<char>, value: Option<Seq<char>>) -> Seq<FormFieldView> {
    match value {
        Some(text) => seq![FormFieldView { name, value: text }],
        None => Seq::empty(),
    }
}

/// The text fields that an upload posts: what the file is for, one field
/// for each purpose that the request names, in a fixed order.
pub open spec fn upload_fields(
    usage: Option<Seq<char>>,
    context: Option<Seq<char>>,
    assistant_id: Option<Seq<char>>,
    agent_id: Option<Seq<char>>,
    conversation_id: Option<Seq<char>>,
    message_id: Option<Seq<char>>,
) -> Seq<FormFieldView> {
    optional_field("usage"@, usage) + optional_field("context"@, context) + optional_field(
        "assistantId"@,
        assistant_id,
    ) + optional_field("agentId"@, agent_id) + optional_field("conversationId"@, conversation_id)
        + optional_field("messageId"@, message_id)
}

/// The name for a file whose path has the given last component.
pub fn file_name_or_default(component: Option<String>) -> (name: String)
    ensures
        name@ == name_or_default(component.deep_view()),
{
    match component {
        Some(name) => name,
        None => "upload.bin".to_owned(),
    }
}

/// The name that a file is posted under where the request names none. The
/// last component of the path is what the platform says it is.
pub fn default_file_name(path: &PathBuf) -> (name: String) {
    let component = match last_component(path) {
        Some(last) => path_text(&last),
        None => None,
    };
    file_name_or_default(component)
}

/// Appends the form field for a value, if there is one.
fn push_field(fields: &mut Vec<FormField>, name: &str, value: &Option<String>)
    ensures
        final(fields).deep_view() == old(fields).deep_view() + optional_field(
            name@,
            value.deep_view(),
        ),
{
    let ghost before = fields.deep_view();
    match value {
        Some(text) => {
            fields.push(FormField { name: name.to_owned(), value: text.clone() });
            assert(fields.deep_view() =~= before + optional_field(name@, value.deep_view()));
        },
        None => {
            assert(fields.deep_view() =~= before + optional_field(name@, value.deep_view()));
        },
    }
}

/// Plans an upload: under which name and media type the file is posted, and
/// with which text fields. A media type that the mime crate does not read
/// is refused as a bad request.
pub fn plan_upload(request: &FileUploadRequest) -> (planned: Result<UploadPlan, ApiError>)
    ensures
        match planned {
            Ok(plan) => {
                &&& request.file_name matches Some(name) ==> plan.file_name@ == name@
                &&& plan.media_type.deep_view() == match request.mime_type {
                    Some(asked) => media_type_text(asked@),
                    None => None,
                }
                &&& request.mime_type matches Some(asked) ==> media_type_text(asked@) is Some
                &&& plan.fields.deep_view() == upload_fields(
                    request.usage.deep_view(),
                    request.context.deep_view(),
                    request.assistant_id.deep_view(),
                    request.agent_id.deep_view(),
                    request.conversation_id.deep_view(),
                    request.message_id.deep_view(),
                )
            },
            Err(error) => request.mime_type matches Some(asked) && media_type_text(asked@) is None
                && error@ == (ApiErrorView::Http {
                status: 400,
                message: "invalid mime type: "@ + asked@,
            }),
        },
{
    let file_name = match &request.file_name {
        Some(name) => name.clone(),
        None => default_file_name(&request.file_path),
    };
    let media_type = match &request.mime_type {
        Some(asked) => match read_media_type(asked.as_str()) {
            Some(kept) => Some(kept),
            None => {
                return Err(
                    ApiError::Http {
                        status: 400,
                        message: prefixed("invalid mime type: ", asked.as_str()),
                    },
                );
            },
        },
        None => None,
    };
    let mut fields: Vec<FormField> = Vec::new();
    assert(fields.deep_view() =~= Seq::empty());
    push_field(&mut fields, "usage", &request.usage);
    push_field(&mut fields, "context", &request.context);
    push_field(&mut fields, "assistantId", &request.assistant_id);
    push_field(&mut fields, "agentId", &request.agent_id);
    push_field(&mut fields, "conversationId", &request.conversation_id);
    push_field(&mut fields, "messageId", &request.message_id);
    assert(fields.deep_view() =~= upload_fields(
        request.usage.deep_view(),
        request.context.deep_view(),
        request.assistant_id.deep_view(),
        request.agent_id.deep_view(),
        request.conversation_id.deep_view(),
        request.message_id.deep_view(),
    ));
    Ok(UploadPlan { file_name, media_type, fields })
}

} // verus!
