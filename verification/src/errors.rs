//! The error taxonomy of the service and how each error is reported.

use vstd::prelude::*;
use vstd::string::StringExecFns;

verus! {

/// Everything that can go wrong while admitting, running or serving a job.
///
/// The payload of `Io`, `Multipart` and `Json` is the text of the underlying
/// failure; the other payloads are complete messages.
#[derive(Debug, Clone, PartialEq, Eq)]
pub enum AppError {
    /// The upload is malformed: no file field, no file name, or an extension
    /// that is missing or not accepted.
    BadRequest(String),
    /// The identity has a job in flight or has used up its daily quota.
    TooManyRequests(String),
    /// No such job, or the job has no such artifact.
    NotFound,
    /// A storage operation failed.
    Io(String),
    /// The request body could not be decoded.
    Multipart(String),
    /// The agent's structured output could not be parsed.
    Json(String),
    /// The agent could not be started, or exited with a failure status.
    AgentFailure(String),
}

/// An error with the text of its payload: what contracts say of an
/// `AppError`.
pub enum ErrorView {
    BadRequest(Seq<char>),
    TooManyRequests(Seq<char>),
    NotFound,
    Io(Seq<char>),
    Multipart(Seq<char>),
    Json(Seq<char>),
    AgentFailure(Seq<char>),
}

impl View for AppError {
    type V = ErrorView;

    open spec fn view(&self) -> ErrorView {
        match *self {
            AppError::BadRequest(m) => ErrorView::BadRequest(m@),
            AppError::TooManyRequests(m) => ErrorView::TooManyRequests(m@),
            AppError::NotFound => ErrorView::NotFound,
            AppError::Io(e) => ErrorView::Io(e@),
            AppError::Multipart(e) => ErrorView::Multipart(e@),
            AppError::Json(e) => ErrorView::Json(e@),
            AppError::AgentFailure(m) => ErrorView::AgentFailure(m@),
        }
    }
}

/// HTTP status for a malformed upload.
pub const STATUS_BAD_REQUEST: u16 = 400;

/// HTTP status for a missing job or artifact.
pub const STATUS_NOT_FOUND: u16 = 404;

/// HTTP status for a quota rejection.
pub const STATUS_TOO_MANY_REQUESTS: u16 = 429;

/// HTTP status for every failure that is not the client's fault.
pub const STATUS_INTERNAL_SERVER_ERROR: u16 = 500;

impl AppError {
    /// Whether the error is the service's own failure rather than the
    /// client's: its details are logged and never sent to the client.
    pub open spec fn is_internal(self) -> bool {
        self is Io || self is Multipart || self is Json || self is AgentFailure
    }

    /// The tag under which the error is recorded in the audit log.
    pub open spec fn outcome_text(self) -> Seq<char> {
        match self {
            AppError::BadRequest(_) => "bad_request"@,
            AppError::TooManyRequests(_) => "too_many_requests"@,
            AppError::NotFound => "not_found"@,
            AppError::AgentFailure(_) | AppError::Io(_) | AppError::Json(_) | AppError::Multipart(
                _,
            ) => "error"@,
        }
    }

    /// The full diagnostic text of the error.
    pub open spec fn message_text(self) -> Seq<char> {
        match self {
            AppError::BadRequest(m) => m@,
            AppError::TooManyRequests(m) => m@,
            AppError::NotFound => "job not found"@,
            AppError::Io(e) => "io error: "@ + e@,
            AppError::Multipart(e) => "multipart error: "@ + e@,
            AppError::Json(e) => "json error: "@ + e@,
            AppError::AgentFailure(m) => m@,
        }
    }

    /// The HTTP status that reports the error.
    pub open spec fn status(self) -> u16 {
        match self {
            AppError::BadRequest(_) => STATUS_BAD_REQUEST,
            AppError::TooManyRequests(_) => STATUS_TOO_MANY_REQUESTS,
            AppError::NotFound => STATUS_NOT_FOUND,
            AppError::AgentFailure(_) | AppError::Io(_) | AppError::Json(_) | AppError::Multipart(
                _,
            ) => STATUS_INTERNAL_SERVER_ERROR,
        }
    }

    /// The text sent to the client: the message itself for a client error,
    /// a fixed opaque text for an internal one.
    pub open spec fn body_text(self) -> Seq<char> {
        if self.is_internal() {
            "internal server error"@
        } else {
            self.message_text()
        }
    }

    /// The tag under which the error is recorded in the audit log.
    pub fn outcome(&self) -> (tag: &'static str)
        ensures
            tag@ == self.outcome_text(),
    {
        match self {
            AppError::BadRequest(_) => "bad_request",
            AppError::TooManyRequests(_) => "too_many_requests",
            AppError::NotFound => "not_found",
            AppError::AgentFailure(_) | AppError::Io(_) | AppError::Json(_) | AppError::Multipart(
                _,
            ) => "error",
        }
    }

    /// The full diagnostic text of the error, as it is logged and recorded.
    pub fn message(&self) -> (text: String)
        ensures
            text@ == self.message_text(),
    {
        match self {
            AppError::BadRequest(m) => m.clone(),
            AppError::TooManyRequests(m) => m.clone(),
            AppError::NotFound => String::from_str("job not found"),
            AppError::Io(e) => String::from_str("io error: ").concat(e.as_str()),
            AppError::Multipart(e) => String::from_str("multipart error: ").concat(e.as_str()),
            AppError::Json(e) => String::from_str("json error: ").concat(e.as_str()),
            AppError::AgentFailure(m) => m.clone(),
        }
    }

    /// The HTTP status that reports the error.
    pub fn status_code(&self) -> (code: u16)
        ensures
            code == self.status(),
    {
        match self {
            AppError::BadRequest(_) => STATUS_BAD_REQUEST,
            AppError::TooManyRequests(_) => STATUS_TOO_MANY_REQUESTS,
            AppError::NotFound => STATUS_NOT_FOUND,
            AppError::AgentFailure(_) | AppError::Io(_) | AppError::Json(_) | AppError::Multipart(
                _,
            ) => STATUS_INTERNAL_SERVER_ERROR,
        }
    }

    /// Whether the error's details must be kept from the client.
    pub fn hides_details(&self) -> (internal: bool)
        ensures
            internal == self.is_internal(),
    {
        match self {
            AppError::BadRequest(_) | AppError::TooManyRequests(_) | AppError::NotFound => false,
            AppError::AgentFailure(_) | AppError::Io(_) | AppError::Json(_) | AppError::Multipart(
                _,
            ) => true,
        }
    }

    /// The text sent to the client in the response body.
    pub fn response_body(&self) -> (text: String)
        ensures
            text@ == self.body_text(),
    {
        if self.hides_details() {
            String::from_str("internal server error")
        } else {
            self.message()
        }
    }
}

} // verus!
