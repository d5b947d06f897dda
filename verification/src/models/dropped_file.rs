//! Files dragged into the client before upload.

use vstd::prelude::*;

use crate::models::{Timestamp, UploadStatus};
use crate::text::copy_opt_string;

verus! {

/// A file that the user dropped into the client.
#[derive(Debug)]
pub struct DroppedFile {
    pub id: String,
    pub conversation_id: Option<String>,
    pub original_name: String,
    pub file_path: String,
    pub mime_type: String,
    pub size_bytes: u64,
    pub checksum: String,
    pub upload_status: UploadStatus,
    pub server_file_id: Option<String>,
    pub dropped_at: Timestamp,
    pub processed_at: Option<Timestamp>,
    pub error_message: Option<String>,
}

impl Clone for DroppedFile {
    fn clone(&self) -> (copy: DroppedFile)
        ensures
            copy == *self,
    {
        DroppedFile {
            id: self.id.clone(),
            conversation_id: copy_opt_string(&self.conversation_id),
            original_name: self.original_name.clone(),
            file_path: self.file_path.clone(),
            mime_type: self.mime_type.clone(),
            size_bytes: self.size_bytes,
            checksum: self.checksum.clone(),
            upload_status: self.upload_status,
            server_file_id: copy_opt_string(&self.server_file_id),
            dropped_at: self.dropped_at,
            processed_at: self.processed_at,
            error_message: copy_opt_string(&self.error_message),
        }
    }
}

impl DroppedFile {
    /// Marks the upload as completed at `timestamp`.
    pub fn mark_processed(&mut self, timestamp: Timestamp)
        ensures
            *final(self) == (DroppedFile {
                upload_status: UploadStatus::Completed,
                processed_at: Some(timestamp),
                ..*old(self)
            }),
    {
        self.upload_status = UploadStatus::Completed;
        self.processed_at = Some(timestamp);
    }
}

} // verus!
