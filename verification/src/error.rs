//! Why a download fails.

use vstd::prelude::*;

verus! {

/// Why a request to a peer failed.
#[derive(Clone, Copy, Debug, PartialEq, Eq, Structural)]
pub enum RequestError {
    /// The channel to the peer was closed.
    ChannelClosed,
    /// The connection to the peer was dropped.
    ConnectionDropped,
    /// The peer does not speak the capability that the request needs.
    UnsupportedCapability,
    /// The peer did not answer in time.
    Timeout,
    /// The peer answered with something that is not a valid answer.
    BadResponse,
}

/// Why a download failed.
#[derive(Clone, Copy, Debug, PartialEq, Eq, Structural)]
pub enum DownloadError {
    /// A request failed.
    RequestError(RequestError),
}

/// The result of a download step.
pub type DownloadResult<T> = Result<T, DownloadError>;

/// The error for an answer that cannot be accepted.
pub open spec fn bad_response() -> DownloadError {
    DownloadError::RequestError(RequestError::BadResponse)
}

/// The error for an answer that cannot be accepted.
pub fn bad_response_error() -> (e: DownloadError)
    ensures
        e == bad_response(),
{
    DownloadError::RequestError(RequestError::BadResponse)
}

} // verus!
