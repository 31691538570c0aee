//! The uniform response envelope that every command returns: a success flag, a
//! human-readable message, and an optional payload.

use vstd::prelude::*;

verus! {

/// Envelope for every command result. `success` tells whether the operation
/// went through; `message` carries a human-readable description; `data` holds
/// the payload of a successful call, when there is one.
pub struct Response<T> {
    pub success: bool,
    pub message: String,
    pub data: Option<T>,
}

impl<T> Response<T> {
    /// Successful response carrying `data` and the standard success message.
    pub fn success(data: T) -> (r: Response<T>)
        ensures
            r.success,
            r.message@ == "操作成功"@,
            r.data == Some(data),
    {
        Response { success: true, message: "操作成功".to_owned(), data: Some(data) }
    }

    /// Successful response carrying `data` and a caller-chosen message.
    pub fn success_with_message(data: T, message: String) -> (r: Response<T>)
        ensures
            r.success,
            r.message == message,
            r.data == Some(data),
    {
        Response { success: true, message, data: Some(data) }
    }

    /// Successful response with no payload and the standard success message.
    pub fn success_empty() -> (r: Response<()>)
        ensures
            r.success,
            r.message@ == "操作成功"@,
            r.data is None,
    {
        Response::<()> { success: true, message: "操作成功".to_owned(), data: None }
    }

    /// Successful response with no payload and a caller-chosen message.
    pub fn success_empty_with_message(message: String) -> (r: Response<()>)
        ensures
            r.success,
            r.message == message,
            r.data is None,
    {
        Response::<()> { success: true, message, data: None }
    }

    /// Failed response carrying the cause as its message.
    pub fn error(message: String) -> (r: Response<T>)
        ensures
            !r.success,
            r.message == message,
            r.data is None,
    {
        Response { success: false, message, data: None }
    }
}

} // verus!
