//! The error taxonomy of the resolver core.

use vstd::prelude::*;

verus! {

/// Everything that can go wrong between a hostname and a resolved address.
///
/// Each variant names one failure of the pipeline: name encoding, response
/// parsing, record validation, transaction-id checking, or the caller's
/// socket work.
#[derive(Clone, Copy, Debug, PartialEq, Eq, Structural)]
pub enum DnsError {
    /// A dotted-name segment is too long for a single length byte.
    EncodingError,
    /// The response buffer ended before a parse step could finish.
    TruncatedMessage,
    /// The answer is not an A record of the Internet class with a 4-byte address.
    UnsupportedRecordType,
    /// The response echoes a transaction id other than the request's.
    IdMismatch,
    /// A bind, send, or receive failed at the OS level (reported by the caller).
    SocketError,
    /// A fixed-size field could not be read from the bytes given.
    ParseError,
}

/// The text shown for each error variant.
pub open spec fn error_text(e: DnsError) -> Seq<char> {
    match e {
        DnsError::EncodingError => "a name segment exceeds the label length limit"@,
        DnsError::TruncatedMessage => "response buffer shorter than required"@,
        DnsError::UnsupportedRecordType => "answer is not an A/IN record"@,
        DnsError::IdMismatch => "response transaction id does not match the request"@,
        DnsError::SocketError => "bind, send, or receive failed"@,
        DnsError::ParseError => "malformed fixed-size field"@,
    }
}

impl DnsError {
    /// A short description of the failure, for callers that report errors.
    pub fn message(&self) -> (r: &'static str)
        ensures
            r@ == error_text(*self),
    {
        match self {
            DnsError::EncodingError => "a name segment exceeds the label length limit",
            DnsError::TruncatedMessage => "response buffer shorter than required",
            DnsError::UnsupportedRecordType => "answer is not an A/IN record",
            DnsError::IdMismatch => "response transaction id does not match the request",
            DnsError::SocketError => "bind, send, or receive failed",
            DnsError::ParseError => "malformed fixed-size field",
        }
    }
}

} // verus!
