//! The answer that every request gets: an HTTP status and a body of the
//! uniform shape `{ success, message, data }`.
use vstd::prelude::*;

verus! {

/// The HTTP statuses the service answers with.
#[derive(Clone, Copy, Debug, PartialEq, Eq, Structural)]
pub enum HttpStatus {
    Success,
    BadRequest,
    NotFound,
    Conflict,
    ServerError,
}

/// Uniform response body.
pub struct ApiResponse<T> {
    pub success: bool,
    pub message: String,
    pub data: Option<T>,
}

/// A status together with its body.
pub struct Reply<T> {
    pub status: HttpStatus,
    pub body: ApiResponse<T>,
}

/// The status and message of a reply, as values.
pub struct Answer {
    pub status: HttpStatus,
    pub message: Seq<char>,
}

impl<T> Reply<T> {
    /// The status and message of this reply.
    pub open spec fn answer(&self) -> Answer {
        Answer { status: self.status, message: self.body.message@ }
    }

    /// The body reports success exactly for `HttpStatus::Success` (HTTP 200).
    pub open spec fn is_consistent(&self) -> bool {
        self.body.success == (self.status == HttpStatus::Success)
    }
}

/// A successful reply.
pub(crate) fn reply_ok<T>(message: String, data: Option<T>) -> (r: Reply<T>)
    ensures
        r.status == HttpStatus::Success,
        r.body.success,
        r.body.message@ == message@,
        r.body.data == data,
{
    Reply { status: HttpStatus::Success, body: ApiResponse { success: true, message, data } }
}

/// A failed reply without data.
pub(crate) fn reply_err<T>(status: HttpStatus, message: &str) -> (r: Reply<T>)
    requires
        status != HttpStatus::Success,
    ensures
        r.status == status,
        !r.body.success,
        r.body.message@ == message@,
        r.body.data is None,
{
    Reply {
        status,
        body: ApiResponse { success: false, message: String::from_str(message), data: None },
    }
}

} // verus!
