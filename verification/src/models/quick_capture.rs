//! Sessions of the quick capture overlay.

use vstd::prelude::*;

use crate::models::Timestamp;
use crate::text::copy_opt_string;

verus! {

/// One session of the quick capture overlay.
#[derive(Debug)]
pub struct QuickCaptureSession {
    pub id: String,
    pub query: String,
    pub response: Option<String>,
    pub created_at: Timestamp,
    pub completed_at: Option<Timestamp>,
    pub session_duration_ms: Option<u64>,
    pub converted_to_conversation: Option<String>,
    pub server_id: String,
}

impl Clone for QuickCaptureSession {
    fn clone(&self) -> (copy: QuickCaptureSession)
        ensures
            copy == *self,
    {
        QuickCaptureSession {
            id: self.id.clone(),
            query: self.query.clone(),
            response: copy_opt_string(&self.response),
            created_at: self.created_at,
            completed_at: self.completed_at,
            session_duration_ms: self.session_duration_ms,
            converted_to_conversation: copy_opt_string(&self.converted_to_conversation),
            server_id: self.server_id.clone(),
        }
    }
}

/// Milliseconds from `start` to `end`; zero where `end` is the earlier one.
pub open spec fn elapsed_millis(start: Timestamp, end: Timestamp) -> int {
    if end@ < start@ {
        0
    } else {
        (end@ - start@) * 1000
    }
}

impl QuickCaptureSession {
    /// Closes the session at `timestamp` with the response it got, and
    /// records how long it lasted.
    pub fn mark_completed(&mut self, timestamp: Timestamp, response: Option<String>)
        ensures
            *final(self) == (QuickCaptureSession {
                response: response,
                completed_at: Some(timestamp),
                session_duration_ms: Some(elapsed_millis(old(self).created_at, timestamp) as u64),
                ..*old(self)
            }),
    {
        self.response = response;
        self.completed_at = Some(timestamp);
        let end: i64 = timestamp.seconds();
        let start: i64 = self.created_at.seconds();
        let duration_ms: i64 = (end - start) * 1000;
        self.session_duration_ms = Some(
            if duration_ms < 0 {
                0
            } else {
                duration_ms as u64
            },
        );
    }
}

} // verus!
