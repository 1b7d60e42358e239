//! The outcome reporter.
//!
//! When a synchronization finishes, a marker goes to the notification
//! sink; when it failed, a structured error record goes to the error
//! sink first.  This module decides exactly which messages are owed;
//! delivering them is transport work and happens outside the library,
//! detached from the originating request.

use vstd::prelude::*;
use vstd::string::StringExecFns;

verus! {

/// The structured record the error sink receives: a fixed code and the
/// failure's description.
#[derive(Debug, Clone)]
pub struct ErrorData {
    pub code: String,
    pub message: String,
}

impl ErrorData {
    /// Wraps a failure description under the fixed error code.
    pub fn new(message: String) -> (r: ErrorData)
        ensures
            r.code@ == "webhook_internal_error"@,
            r.message == message,
    {
        ErrorData { code: "webhook_internal_error".to_owned(), message }
    }
}

/// One message owed to a sink: a bare marker on the notification
/// topic, or an error record on the error topic under the operation's
/// correlation id.
#[derive(Debug, Clone)]
pub enum SinkMessage {
    Notif(String),
    Error(ErrorData, String),
}

/// What a failure alone owes the error sink, when no completion
/// marker is due: the structured record under the operation's
/// correlation id.
pub fn error_report(message: String, correlation_id: &String) -> (r: SinkMessage)
    ensures
        r matches SinkMessage::Error(d, c) && d.code@ == "webhook_internal_error"@ && d.message
            == message && c@ == correlation_id@,
{
    SinkMessage::Error(ErrorData::new(message), correlation_id.clone())
}

/// What a finished synchronization owes the sinks: `"ok"` on success;
/// on failure, the structured error record first, then the `"ko"`
/// marker.
pub fn outcome_messages(result: &Result<(), String>, correlation_id: &String) -> (r: Vec<
    SinkMessage,
>)
    ensures
        match result {
            Ok(_) => r@.len() == 1 && (r@[0] matches SinkMessage::Notif(p) && p@ == "ok"@),
            Err(m) => {
                &&& r@.len() == 2
                &&& r@[0] matches SinkMessage::Error(d, c) && d.code@ == "webhook_internal_error"@
                    && d.message@ == m@ && c@ == correlation_id@
                &&& r@[1] matches SinkMessage::Notif(p) && p@ == "ko"@
            },
        },
{
    let mut out: Vec<SinkMessage> = Vec::new();
    match result {
        Ok(_) => {
            out.push(SinkMessage::Notif("ok".to_owned()));
        },
        Err(m) => {
            out.push(
                SinkMessage::Error(ErrorData::new(m.clone()), correlation_id.clone()),
            );
            out.push(SinkMessage::Notif("ko".to_owned()));
        },
    }
    out
}

} // verus!
