//! The errors a request can end in, and how each is shown to the caller.

use vstd::prelude::*;

verus! {

/// Which rule the payload of a create request broke.
#[derive(Clone, Copy, Debug, PartialEq, Eq, Structural)]
pub enum ValidationError {
    /// The field `value` is empty.
    ValueEmpty,
    /// The field `value` is longer than the largest payload accepted.
    ValueTooLong,
}

impl ValidationError {
    /// The name of the request field that was refused.
    pub open spec fn field_spec(self) -> Seq<char> {
        "value"@
    }

    /// The message shown for this error.
    pub open spec fn message_spec(self) -> Seq<char> {
        match self {
            ValidationError::ValueEmpty => "value: length must be at least 1 byte"@,
            ValidationError::ValueTooLong => "value: length must be at most 10000 bytes"@,
        }
    }

    /// The name of the request field that was refused.
    pub fn field(&self) -> (name: &'static str)
        ensures
            name@ == self.field_spec(),
    {
        "value"
    }

    /// The message shown for this error; it names the field.
    pub fn to_string(&self) -> (message: String)
        ensures
            message@ == self.message_spec(),
    {
        match self {
            ValidationError::ValueEmpty => "value: length must be at least 1 byte".to_owned(),
            ValidationError::ValueTooLong => "value: length must be at most 10000 bytes".to_owned(),
        }
    }
}

/// How a request failed.
#[derive(Clone, Copy, Debug, PartialEq, Eq, Structural)]
pub enum AppError {
    /// The identifier in the request is not well formed.
    NotFound,
    /// No secret can be had under this identifier: it was never stored, was
    /// already claimed, or has expired.
    Expired,
    /// The secret was already claimed.
    Claimed,
    /// Encryption, decryption or the store failed.
    InternalServerError,
    /// The request body was refused.
    BadRequest(ValidationError),
}

/// The body of an error response, with the status it is sent under.
pub struct ErrorResponse {
    pub status: u16,
    pub message: String,
}

/// The mathematical value of an `ErrorResponse`.
pub struct ErrorResponseView {
    pub status: u16,
    pub message: Seq<char>,
}

impl View for ErrorResponse {
    type V = ErrorResponseView;

    open spec fn view(&self) -> ErrorResponseView {
        ErrorResponseView { status: self.status, message: self.message@ }
    }
}

impl AppError {
    /// The HTTP status this error is sent under.
    pub open spec fn status_spec(self) -> u16 {
        match self {
            AppError::NotFound => 404,
            AppError::Expired => 410,
            AppError::Claimed => 410,
            AppError::InternalServerError => 500,
            AppError::BadRequest(_) => 400,
        }
    }

    /// The message shown for this error.
    pub open spec fn message_spec(self) -> Seq<char> {
        match self {
            AppError::NotFound => "Not Found"@,
            AppError::Expired => "Expired"@,
            AppError::Claimed => "Claimed"@,
            AppError::InternalServerError => "Internal Server Error"@,
            AppError::BadRequest(reason) => reason.message_spec(),
        }
    }

    /// The response this error is shown as.
    pub open spec fn response_spec(self) -> ErrorResponseView {
        ErrorResponseView { status: self.status_spec(), message: self.message_spec() }
    }

    /// The HTTP status this error is sent under.
    pub fn status_code(&self) -> (status: u16)
        ensures
            status == self.status_spec(),
    {
        match self {
            AppError::NotFound => 404,
            AppError::Expired => 410,
            AppError::Claimed => 410,
            AppError::InternalServerError => 500,
            AppError::BadRequest(_) => 400,
        }
    }

    /// The message shown for this error. Internal errors show no detail.
    pub fn to_string(&self) -> (message: String)
        ensures
            message@ == self.message_spec(),
    {
        match self {
            AppError::NotFound => "Not Found".to_owned(),
            AppError::Expired => "Expired".to_owned(),
            AppError::Claimed => "Claimed".to_owned(),
            AppError::InternalServerError => "Internal Server Error".to_owned(),
            AppError::BadRequest(reason) => reason.to_string(),
        }
    }

    /// The response this error is shown as: its status, and its message as
    /// the body.
    pub fn into_response(self) -> (response: ErrorResponse)
        ensures
            response@ == self.response_spec(),
    {
        ErrorResponse { status: self.status_code(), message: self.to_string() }
    }
}

} // verus!
