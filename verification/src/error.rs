//! The error taxonomy of the service. Every public operation either
//! returns a value or one of these error kinds, unmodified by the layers
//! it passes through.

use vstd::prelude::*;

verus! {

/// What a failed operation reports.
#[derive(Debug)]
pub enum Error {
    /// A required key is absent from the parameter map; carries the key.
    MissingParameter(String),
    /// No extractor is registered for the given provenance type; carries
    /// the type name.
    UnsupportedProvenanceType(String),
    /// The provenance was rejected by the verifier; carries the reason.
    VerificationFailed(String),
    /// The provenance verified, but digest extraction for its format is
    /// deliberately unimplemented. A valid terminal state, not a bug.
    ExtractionNotImplemented,
    /// A wire form could not be produced or read back.
    SerializationFailed,
    /// The publish channel could not deliver a notification.
    ChannelUnavailable,
    /// The cache backend failed to store or load a value.
    CacheBackendError,
}

/// The mathematical shape of an [`Error`]: each string payload as a
/// sequence of characters.
pub enum ErrorView {
    MissingParameter(Seq<char>),
    UnsupportedProvenanceType(Seq<char>),
    VerificationFailed(Seq<char>),
    ExtractionNotImplemented,
    SerializationFailed,
    ChannelUnavailable,
    CacheBackendError,
}

impl View for Error {
    type V = ErrorView;

    open spec fn view(&self) -> ErrorView {
        match self {
            Error::MissingParameter(k) => ErrorView::MissingParameter(k@),
            Error::UnsupportedProvenanceType(t) => ErrorView::UnsupportedProvenanceType(t@),
            Error::VerificationFailed(r) => ErrorView::VerificationFailed(r@),
            Error::ExtractionNotImplemented => ErrorView::ExtractionNotImplemented,
            Error::SerializationFailed => ErrorView::SerializationFailed,
            Error::ChannelUnavailable => ErrorView::ChannelUnavailable,
            Error::CacheBackendError => ErrorView::CacheBackendError,
        }
    }
}

impl PartialEq for Error {
    fn eq(&self, other: &Error) -> (r: bool) {
        match (self, other) {
            (Error::MissingParameter(a), Error::MissingParameter(b)) => *a == *b,
            (
                Error::UnsupportedProvenanceType(a),
                Error::UnsupportedProvenanceType(b),
            ) => *a == *b,
            (Error::VerificationFailed(a), Error::VerificationFailed(b)) => *a == *b,
            (Error::ExtractionNotImplemented, Error::ExtractionNotImplemented) => true,
            (Error::SerializationFailed, Error::SerializationFailed) => true,
            (Error::ChannelUnavailable, Error::ChannelUnavailable) => true,
            (Error::CacheBackendError, Error::CacheBackendError) => true,
            _ => false,
        }
    }
}

impl vstd::std_specs::cmp::PartialEqSpecImpl for Error {
    open spec fn obeys_eq_spec() -> bool {
        true
    }

    open spec fn eq_spec(&self, other: &Error) -> bool {
        self@ == other@
    }
}

impl Error {
    /// A short, stable description of the error, for logs and callers
    /// that need text.
    pub fn describe(&self) -> (r: String)
        ensures
            r@ == self.describe_spec(),
    {
        match self {
            Error::MissingParameter(k) => {
                let mut s = String::from_str("parameters do not indicate ");
                s.append(k.as_str());
                s
            },
            Error::UnsupportedProvenanceType(t) => {
                let mut s = String::from_str("no extractor supports the given provenance type: ");
                s.append(t.as_str());
                s
            },
            Error::VerificationFailed(reason) => {
                let mut s = String::from_str("provenance verification failed: ");
                s.append(reason.as_str());
                s
            },
            Error::ExtractionNotImplemented => String::from_str(
                "Can not extract hash value using in-toto",
            ),
            Error::SerializationFailed => String::from_str(
                "the reference value wire form could not be produced or read",
            ),
            Error::ChannelUnavailable => String::from_str(
                "the publish channel could not deliver the notification",
            ),
            Error::CacheBackendError => String::from_str("the cache backend failed"),
        }
    }

    /// What [`Error::describe`] returns, as a sequence of characters.
    pub open spec fn describe_spec(&self) -> Seq<char> {
        match self {
            Error::MissingParameter(k) => "parameters do not indicate "@ + k@,
            Error::UnsupportedProvenanceType(t) => (
            "no extractor supports the given provenance type: "@ + t@),
            Error::VerificationFailed(reason) => "provenance verification failed: "@ + reason@,
            Error::ExtractionNotImplemented => "Can not extract hash value using in-toto"@,
            Error::SerializationFailed => (
            "the reference value wire form could not be produced or read"@),
            Error::ChannelUnavailable => (
            "the publish channel could not deliver the notification"@),
            Error::CacheBackendError => "the cache backend failed"@,
        }
    }
}

} // verus!
