//! Error codes, the application error value and the response envelope.

use vstd::prelude::*;

verus! {

/// Machine-readable error categories shown to the front end.
#[derive(Debug, Clone, Copy, PartialEq, Eq, Structural)]
pub enum ErrorCode {
    BadArgument,
    NotFound,
    ScanAlreadyRunning,
    IndexNotReady,
    DangerNotConfirmed,
    QuarantineConflict,
    DiskSpaceInsufficient,
    AiNoApiKey,
    AiNetworkError,
    AiTimeout,
    AiProviderError,
    AiInvalidKey,
    AiRateLimit,
    AiOllamaUnavailable,
    AiModelNotFound,
    InternalError,
}

/// An error with its code, a human-readable message and the area it concerns.
#[derive(Debug, Clone)]
pub struct AppError {
    pub code: ErrorCode,
    pub message: String,
    pub target: Option<String>,
}

/// Either data or an error, the envelope every command answers with.
#[derive(Debug)]
pub struct ApiResponse<T> {
    pub data: Option<T>,
    pub error: Option<AppError>,
}

impl<T> ApiResponse<T> {
    pub fn ok(data: T) -> (r: Self)
        ensures
            r.data == Some(data),
            r.error is None,
    {
        ApiResponse { data: Some(data), error: None }
    }

    pub fn err(error: AppError) -> (r: Self)
        ensures
            r.data is None,
            r.error == Some(error),
    {
        ApiResponse { data: None, error: Some(error) }
    }
}

impl AppError {
    pub fn new(code: ErrorCode, message: &str) -> (e: Self)
        ensures
            e.code == code,
            e.message@ == message@,
            e.target is None,
    {
        AppError { code, message: message.to_owned(), target: None }
    }

    pub fn with_target(self, target: &str) -> (e: Self)
        ensures
            e.code == self.code,
            e.message@ == self.message@,
            e.target matches Some(t) && t@ == target@,
    {
        let mut e = self;
        e.target = Some(target.to_owned());
        e
    }

    /// The text that the error displays: its message.
    pub fn display(&self) -> (s: String)
        ensures
            s@ == self.message@,
    {
        self.message.clone()
    }
}

/// Shorthand for [`AppError::new`].
pub fn err(code: ErrorCode, message: &str) -> (e: AppError)
    ensures
        e.code == code,
        e.message@ == message@,
        e.target is None,
{
    AppError::new(code, message)
}

/// An error with a code, a message and a target, in one step.
pub fn err_at(code: ErrorCode, message: &str, target: &str) -> (e: AppError)
    ensures
        e.code == code,
        e.message@ == message@,
        e.target matches Some(t) && t@ == target@,
{
    err(code, message).with_target(target)
}

} // verus!
