//! The failures that the library reports.

use crate::text::{contains_text, has_text};
use crate::v2::{ApiErrorView, Errors};
use vstd::prelude::*;

verus! {

/// What kept a response from arriving.
#[derive(Clone, Copy, Debug, PartialEq, Eq, Structural)]
pub enum TransportKind {
    /// The server's certificate was not accepted.
    Certificate,
    /// The transport gave up waiting.
    Timeout,
    /// Anything else: no route, a refused or a broken connection.
    Other,
}

/// Why an operation failed.
#[derive(Debug, PartialEq, Eq)]
pub enum Error {
    /// A challenge header without a realm, or not a Bearer challenge at all.
    AuthChallengeMalformed,
    /// The anonymous probe was answered with neither 200 nor a usable 401 challenge.
    AuthProbeFailed,
    /// The token endpoint answered with this status instead of 200.
    TokenRequestFailed(u16),
    /// The token endpoint answered 200 with a body that holds no token.
    TokenResponseInvalid,
    /// The registry answered with a structured error body.
    Api(Errors),
    /// The registry answered with this status and no structured error body.
    UnexpectedStatus(u16),
    /// The content does not have the digest that the registry announced.
    DigestMismatch,
    /// The registry did not open an upload session.
    UploadInitFailed,
    /// The registry refused a chunk with this status.
    ChunkUploadFailed(u16),
    /// The registry refused to complete an upload with this status.
    UploadFinalizeFailed(u16),
    /// The registry confirmed none of the bytes of a chunk.
    UploadStalled,
    /// The connection failed before a response arrived: what kind of failure
    /// it was, and what the transport said of it.
    Transport(TransportKind, String),
    /// A body or header that should hold valid data does not.
    Decode,
    /// A request URL that the transport would not accept as a URI.
    InvalidUrl,
}

/// What an `Error` holds.
pub enum ErrorView {
    AuthChallengeMalformed,
    AuthProbeFailed,
    TokenRequestFailed(u16),
    TokenResponseInvalid,
    Api(Seq<ApiErrorView>),
    UnexpectedStatus(u16),
    DigestMismatch,
    UploadInitFailed,
    ChunkUploadFailed(u16),
    UploadFinalizeFailed(u16),
    UploadStalled,
    Transport(TransportKind, Seq<char>),
    Decode,
    InvalidUrl,
}

impl View for Error {
    type V = ErrorView;

    open spec fn view(&self) -> ErrorView {
        match self {
            Error::AuthChallengeMalformed => ErrorView::AuthChallengeMalformed,
            Error::AuthProbeFailed => ErrorView::AuthProbeFailed,
            Error::TokenRequestFailed(status) => ErrorView::TokenRequestFailed(*status),
            Error::TokenResponseInvalid => ErrorView::TokenResponseInvalid,
            Error::Api(errors) => ErrorView::Api(errors@),
            Error::UnexpectedStatus(status) => ErrorView::UnexpectedStatus(*status),
            Error::DigestMismatch => ErrorView::DigestMismatch,
            Error::UploadInitFailed => ErrorView::UploadInitFailed,
            Error::ChunkUploadFailed(status) => ErrorView::ChunkUploadFailed(*status),
            Error::UploadFinalizeFailed(status) => ErrorView::UploadFinalizeFailed(*status),
            Error::UploadStalled => ErrorView::UploadStalled,
            Error::Transport(kind, message) => ErrorView::Transport(*kind, message@),
            Error::Decode => ErrorView::Decode,
            Error::InvalidUrl => ErrorView::InvalidUrl,
        }
    }
}

/// The view of a result whose success value has a view.
pub open spec fn result_view<T: View>(r: Result<T, Error>) -> Result<T::V, ErrorView> {
    match r {
        Ok(value) => Ok(value@),
        Err(e) => Err(e@),
    }
}

/// The view of a result that carries nothing on success.
pub open spec fn outcome_view(r: Result<(), Error>) -> Result<(), ErrorView> {
    match r {
        Ok(()) => Ok(()),
        Err(e) => Err(e@),
    }
}

/// The kind of a transport failure, told by what the transport said of it: a
/// failure that speaks of a certificate is a certificate failure, whether or
/// not time ran out as well; else a failure on which time ran out is a timeout.
pub open spec fn transport_kind(timed_out: bool, message: Seq<char>) -> TransportKind {
    if has_text(message, "certificate"@) {
        TransportKind::Certificate
    } else if timed_out {
        TransportKind::Timeout
    } else {
        TransportKind::Other
    }
}

impl Error {
    /// The error for a connection that failed: `message` is what the transport
    /// said of the failure, and `timed_out` whether it gave up waiting.
    pub fn transport(timed_out: bool, message: String) -> (out: Error)
        ensures
            out@ == ErrorView::Transport(transport_kind(timed_out, message@), message@),
    {
        let kind = if contains_text(message.as_str(), "certificate") {
            TransportKind::Certificate
        } else if timed_out {
            TransportKind::Timeout
        } else {
            TransportKind::Other
        };
        Error::Transport(kind, message)
    }
}

} // verus!
