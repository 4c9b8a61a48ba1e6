//! From the outcome of a request to the status of its span.

use vstd::prelude::*;

verus! {

/// The status a finished span can carry.
#[derive(Clone, Copy, Debug, PartialEq, Eq, Structural)]
pub enum SpanStatus {
    OK,
    Unknown,
    InvalidArgument,
    DeadlineExceeded,
    NotFound,
    PermissionDenied,
    ResourceExhausted,
    Unimplemented,
    Internal,
    Unavailable,
    Unauthenticated,
}

/// The status that stands for an HTTP status code.
pub open spec fn status_of(code: u16) -> SpanStatus {
    if 100 <= code <= 399 {
        SpanStatus::OK
    } else if code == 401 {
        SpanStatus::Unauthenticated
    } else if code == 403 {
        SpanStatus::PermissionDenied
    } else if code == 404 {
        SpanStatus::NotFound
    } else if code == 429 {
        SpanStatus::ResourceExhausted
    } else if 400 <= code <= 499 {
        SpanStatus::InvalidArgument
    } else if code == 501 {
        SpanStatus::Unimplemented
    } else if code == 503 {
        SpanStatus::Unavailable
    } else if code == 504 {
        SpanStatus::DeadlineExceeded
    } else if 500 <= code <= 599 {
        SpanStatus::Internal
    } else {
        SpanStatus::Unknown
    }
}

/// Maps an HTTP status code to a span status.
///
/// Informational, success and redirect codes are `OK`. Five client errors and
/// three server errors have a status of their own; the other client errors are
/// `InvalidArgument`, the other server errors `Internal`. A code that is no
/// HTTP status at all is `Unknown`.
pub fn map_status(code: u16) -> (status: SpanStatus)
    ensures
        status == status_of(code),
        100 <= code <= 399 ==> status == SpanStatus::OK,
        code == 401 ==> status == SpanStatus::Unauthenticated,
        code == 403 ==> status == SpanStatus::PermissionDenied,
        code == 404 ==> status == SpanStatus::NotFound,
        code == 429 ==> status == SpanStatus::ResourceExhausted,
        400 <= code <= 499 && code != 401 && code != 403 && code != 404 && code != 429
            ==> status == SpanStatus::InvalidArgument,
        code == 501 ==> status == SpanStatus::Unimplemented,
        code == 503 ==> status == SpanStatus::Unavailable,
        code == 504 ==> status == SpanStatus::DeadlineExceeded,
        500 <= code <= 599 && code != 501 && code != 503 && code != 504
            ==> status == SpanStatus::Internal,
        code < 100 || code > 599 ==> status == SpanStatus::Unknown,
{
    match code {
        100..=399 => SpanStatus::OK,
        401 => SpanStatus::Unauthenticated,
        403 => SpanStatus::PermissionDenied,
        404 => SpanStatus::NotFound,
        429 => SpanStatus::ResourceExhausted,
        400..=499 => SpanStatus::InvalidArgument,
        501 => SpanStatus::Unimplemented,
        503 => SpanStatus::Unavailable,
        504 => SpanStatus::DeadlineExceeded,
        500..=599 => SpanStatus::Internal,
        _ => SpanStatus::Unknown,
    }
}

} // verus!
