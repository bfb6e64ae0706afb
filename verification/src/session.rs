//! What a notary attests of a session, and what holds of it once the
//! attestation and the openings have been checked against the trusted key.

use vstd::prelude::*;
use crate::error::{VerificationError, VerificationErrorView};
use crate::transcript::Transcript;

verus! {

/// The notary's summary of a session.
#[derive(Debug, PartialEq, Eq)]
pub struct SessionHeader {
    /// When the session was recorded, in seconds.
    pub time: u64,
    /// The root that commits to the whole transcript.
    pub root: Vec<u8>,
}

/// What the session claims of the server.
#[derive(Debug, PartialEq, Eq)]
pub struct SessionInfo {
    /// The server's domain name.
    pub server_name: String,
}

/// A header, the server's claimed identity, and the notary's signature
/// over the header. Nothing in it is to be trusted before the signature
/// has been checked.
#[derive(Debug, PartialEq, Eq)]
pub struct SessionProof {
    pub header: SessionHeader,
    pub session_info: SessionInfo,
    pub notary_signature: Vec<u8>,
}

/// What checking the commitments of the disclosed ranges against the
/// header's root gave.
#[derive(Debug, PartialEq, Eq)]
pub enum OpeningOutcome {
    /// Some disclosed range does not open.
    CommitmentMismatch,
    /// Every disclosed range opens; these are the two transcripts.
    Opened { sent: Transcript, received: Transcript },
}

/// What checking a session proof against the trusted key and the trusted
/// root certificates gave. The commitments are opened only against a
/// header that passed.
#[derive(Debug, PartialEq, Eq)]
pub enum AttestationOutcome {
    /// The signature over the header is not the notary's.
    InvalidSignature,
    /// The certificate chain does not end in a trusted root, or is not
    /// the named server's.
    InvalidCertificate,
    /// The header is the notary's and the server is the one named.
    Valid { opening: OpeningOutcome },
}

/// A proof as it arrives, with what the cryptographic checks made of it.
#[derive(Debug, PartialEq, Eq)]
pub enum Submission {
    /// The envelope is not a proof.
    Malformed,
    Decoded { session: SessionProof, attestation: AttestationOutcome },
}

pub struct SessionHeaderView {
    pub time: u64,
    pub root: Seq<u8>,
}

pub struct SessionProofView {
    pub header: SessionHeaderView,
    pub server_name: Seq<char>,
    pub notary_signature: Seq<u8>,
}

pub enum OpeningView {
    CommitmentMismatch,
    Opened { sent: Seq<Option<u8>>, received: Seq<Option<u8>> },
}

pub enum AttestationView {
    InvalidSignature,
    InvalidCertificate,
    Valid { opening: OpeningView },
}

pub enum SubmissionView {
    Malformed,
    Decoded { session: SessionProofView, attestation: AttestationView },
}

impl View for SessionHeader {
    type V = SessionHeaderView;

    open spec fn view(&self) -> SessionHeaderView {
        SessionHeaderView { time: self.time, root: self.root@ }
    }
}

impl View for SessionProof {
    type V = SessionProofView;

    open spec fn view(&self) -> SessionProofView {
        SessionProofView {
            header: self.header@,
            server_name: self.session_info.server_name@,
            notary_signature: self.notary_signature@,
        }
    }
}

impl View for OpeningOutcome {
    type V = OpeningView;

    open spec fn view(&self) -> OpeningView {
        match self {
            OpeningOutcome::CommitmentMismatch => OpeningView::CommitmentMismatch,
            OpeningOutcome::Opened { sent, received } => OpeningView::Opened {
                sent: sent@,
                received: received@,
            },
        }
    }
}

impl View for AttestationOutcome {
    type V = AttestationView;

    open spec fn view(&self) -> AttestationView {
        match self {
            AttestationOutcome::InvalidSignature => AttestationView::InvalidSignature,
            AttestationOutcome::InvalidCertificate => AttestationView::InvalidCertificate,
            AttestationOutcome::Valid { opening } => AttestationView::Valid { opening: opening@ },
        }
    }
}

impl View for Submission {
    type V = SubmissionView;

    open spec fn view(&self) -> SubmissionView {
        match self {
            Submission::Malformed => SubmissionView::Malformed,
            Submission::Decoded { session, attestation } => SubmissionView::Decoded {
                session: session@,
                attestation: attestation@,
            },
        }
    }
}

/// A session whose attestation passed.
pub struct VerifiedSession<'a> {
    pub header: &'a SessionHeader,
    pub session_info: &'a SessionInfo,
    /// An estimate of when the session took place, in seconds: the
    /// header's time added to the time at which the proof was submitted.
    /// `None` where that is more than 64 bits hold.
    pub recorded_time: Option<u64>,
}

/// The header's time added to the time of submission.
pub open spec fn recorded_time_of(reference_time: u64, offset: u64) -> Option<u64> {
    if reference_time + offset <= u64::MAX {
        Some((reference_time + offset) as u64)
    } else {
        None
    }
}

/// What is known of the session behind a submission: the error that the
/// first failed check amounts to, signature before certificate, or the
/// proof whose header can now be trusted.
pub open spec fn session_of(submission: SubmissionView) -> Result<
    SessionProofView,
    VerificationErrorView,
> {
    match submission {
        SubmissionView::Malformed => Err(VerificationErrorView::Deserialization),
        SubmissionView::Decoded { session, attestation } => match attestation {
            AttestationView::InvalidSignature => Err(VerificationErrorView::Signature),
            AttestationView::InvalidCertificate => Err(VerificationErrorView::Certificate),
            AttestationView::Valid { opening } => Ok(session),
        },
    }
}

/// The two transcripts behind a submission, sent and received, or the
/// error that the first failed check amounts to. There are no transcripts
/// unless the session passed and every disclosed range opened.
pub open spec fn transcripts_of(submission: SubmissionView) -> Result<
    (Seq<Option<u8>>, Seq<Option<u8>>),
    VerificationErrorView,
> {
    match submission {
        SubmissionView::Malformed => Err(VerificationErrorView::Deserialization),
        SubmissionView::Decoded { session, attestation } => match attestation {
            AttestationView::InvalidSignature => Err(VerificationErrorView::Signature),
            AttestationView::InvalidCertificate => Err(VerificationErrorView::Certificate),
            AttestationView::Valid { opening } => match opening {
                OpeningView::CommitmentMismatch => Err(VerificationErrorView::Commitment),
                OpeningView::Opened { sent, received } => Ok((sent, received)),
            },
        },
    }
}

/// An estimate of when a session took place.
pub fn recorded_time(reference_time: u64, offset: u64) -> (t: Option<u64>)
    ensures
        t == recorded_time_of(reference_time, offset),
{
    reference_time.checked_add(offset)
}

/// The session of a submission, where its attestation passed. The header
/// is handed out on no other submission.
pub fn verify_session<'a>(submission: &'a Submission, reference_time: u64) -> (r: Result<
    VerifiedSession<'a>,
    VerificationError,
>)
    ensures
        match r {
            Ok(verified) => {
                &&& submission matches Submission::Decoded { session, attestation }
                &&& session_of(submission@) == Ok::<SessionProofView, VerificationErrorView>(
                    session@,
                )
                &&& *verified.header == session.header
                &&& *verified.session_info == session.session_info
                &&& verified.recorded_time == recorded_time_of(
                    reference_time,
                    session.header.time,
                )
            },
            Err(error) => session_of(submission@) == Err::<
                SessionProofView,
                VerificationErrorView,
            >(error@),
        },
{
    match submission {
        Submission::Malformed => Err(VerificationError::Deserialization),
        Submission::Decoded { session, attestation } => match attestation {
            AttestationOutcome::InvalidSignature => Err(VerificationError::Signature),
            AttestationOutcome::InvalidCertificate => Err(VerificationError::Certificate),
            AttestationOutcome::Valid { opening } => Ok(
                VerifiedSession {
                    header: &session.header,
                    session_info: &session.session_info,
                    recorded_time: recorded_time(reference_time, session.header.time),
                },
            ),
        },
    }
}

/// The two transcripts of a submission, sent and received, where its
/// attestation passed and every disclosed range opened.
pub fn verify_substrings<'a>(submission: &'a Submission) -> (r: Result<
    (&'a Transcript, &'a Transcript),
    VerificationError,
>)
    ensures
        match r {
            Ok((sent, received)) => transcripts_of(submission@) == Ok::<
                (Seq<Option<u8>>, Seq<Option<u8>>),
                VerificationErrorView,
            >((sent@, received@)),
            Err(error) => transcripts_of(submission@) == Err::<
                (Seq<Option<u8>>, Seq<Option<u8>>),
                VerificationErrorView,
            >(error@),
        },
{
    match submission {
        Submission::Malformed => Err(VerificationError::Deserialization),
        Submission::Decoded { session, attestation } => match attestation {
            AttestationOutcome::InvalidSignature => Err(VerificationError::Signature),
            AttestationOutcome::InvalidCertificate => Err(VerificationError::Certificate),
            AttestationOutcome::Valid { opening } => match opening {
                OpeningOutcome::CommitmentMismatch => Err(VerificationError::Commitment),
                OpeningOutcome::Opened { sent, received } => Ok((sent, received)),
            },
        },
    }
}

} // verus!
