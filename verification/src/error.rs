//! Why a verification was refused.

use vstd::prelude::*;
use vstd::string::StringExecFns;
use crate::assertion::{message_of, FailureKind};
use crate::engine::{AssertionFailure, AssertionFailureView};

verus! {

/// The two directions of a session.
#[derive(Clone, Copy, Debug, PartialEq, Eq, Structural)]
pub enum Direction {
    /// What the prover sent to the server.
    Sent,
    /// What the prover received from it.
    Received,
}

/// Why no fact came out of a verification.
#[derive(Debug, PartialEq, Eq)]
pub enum VerificationError {
    /// The proof envelope is malformed.
    Deserialization,
    /// The notary's signature is not valid.
    Signature,
    /// The server's identity does not match its certificate chain.
    Certificate,
    /// A disclosed range does not open against the committed root.
    Commitment,
    /// Bytes that are not text where text is expected, a malformed
    /// structured value, or an expected field that is missing.
    Encoding { direction: Direction, failure: AssertionFailure },
    /// A check of the pipeline did not pass.
    Assertion { direction: Direction, failure: AssertionFailure },
}

pub enum VerificationErrorView {
    Deserialization,
    Signature,
    Certificate,
    Commitment,
    Encoding { direction: Direction, failure: AssertionFailureView },
    Assertion { direction: Direction, failure: AssertionFailureView },
}

impl View for VerificationError {
    type V = VerificationErrorView;

    open spec fn view(&self) -> VerificationErrorView {
        match self {
            VerificationError::Deserialization => VerificationErrorView::Deserialization,
            VerificationError::Signature => VerificationErrorView::Signature,
            VerificationError::Certificate => VerificationErrorView::Certificate,
            VerificationError::Commitment => VerificationErrorView::Commitment,
            VerificationError::Encoding { direction, failure } => VerificationErrorView::Encoding {
                direction: *direction,
                failure: failure@,
            },
            VerificationError::Assertion {
                direction,
                failure,
            } => VerificationErrorView::Assertion { direction: *direction, failure: failure@ },
        }
    }
}

/// The failures that say that the data is not in the expected form, as
/// against those that say that it is not what was claimed.
pub open spec fn is_encoding_kind(kind: FailureKind) -> bool {
    match kind {
        FailureKind::NotText => true,
        FailureKind::NoLines => true,
        FailureKind::Malformed => true,
        FailureKind::MissingField => true,
        FailureKind::WrongType => true,
        FailureKind::PrefixNotFound => false,
        FailureKind::SubstringNotFound => false,
        FailureKind::Mismatch => false,
        FailureKind::Withheld => false,
    }
}

/// The error that a failed assertion on the transcript of `direction`
/// amounts to.
pub open spec fn error_of_failure(
    direction: Direction,
    failure: AssertionFailureView,
) -> VerificationErrorView {
    if is_encoding_kind(failure.rejection.kind) {
        VerificationErrorView::Encoding { direction, failure }
    } else {
        VerificationErrorView::Assertion { direction, failure }
    }
}

/// What an error says in one line.
pub open spec fn error_message(error: VerificationErrorView) -> Seq<char> {
    match error {
        VerificationErrorView::Deserialization => "Malformed proof envelope"@,
        VerificationErrorView::Signature => "Session verification failed: invalid notary signature"@,
        VerificationErrorView::Certificate => "Session verification failed: server identity does not match its certificates"@,
        VerificationErrorView::Commitment => "Substrings verification failed: a disclosed range does not open"@,
        VerificationErrorView::Encoding { direction, failure } => message_of(failure.rejection),
        VerificationErrorView::Assertion { direction, failure } => message_of(failure.rejection),
    }
}

impl VerificationError {
    /// Files a failed assertion under the error it amounts to.
    pub fn from_failure(direction: Direction, failure: AssertionFailure) -> (error:
        VerificationError)
        ensures
            error@ == error_of_failure(direction, failure@),
    {
        match failure.rejection.kind {
            FailureKind::NotText
            | FailureKind::NoLines
            | FailureKind::Malformed
            | FailureKind::MissingField
            | FailureKind::WrongType => VerificationError::Encoding { direction, failure },
            FailureKind::PrefixNotFound
            | FailureKind::SubstringNotFound
            | FailureKind::Mismatch
            | FailureKind::Withheld => VerificationError::Assertion { direction, failure },
        }
    }

    /// The error in one line.
    pub fn message(&self) -> (m: String)
        ensures
            m@ == error_message(self@),
    {
        match self {
            VerificationError::Deserialization => String::from_str("Malformed proof envelope"),
            VerificationError::Signature => String::from_str(
                "Session verification failed: invalid notary signature",
            ),
            VerificationError::Certificate => String::from_str(
                "Session verification failed: server identity does not match its certificates",
            ),
            VerificationError::Commitment => String::from_str(
                "Substrings verification failed: a disclosed range does not open",
            ),
            VerificationError::Encoding { direction, failure } => failure.rejection.message(),
            VerificationError::Assertion { direction, failure } => failure.rejection.message(),
        }
    }
}

} // verus!
