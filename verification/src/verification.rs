//! From a submitted proof to a fact, or to what a verified session shows.

use vstd::prelude::*;
use vstd::string::StringExecFns;
use crate::error::{VerificationError, VerificationErrorView};
use crate::fact::{extract_fact, extraction, extraction_view, Claim, ClaimView, Fact, FactView};
use crate::reading::{read_cells, reading_of};
use crate::session::{
    recorded_time_of, session_of, transcripts_of, verify_session, verify_substrings, Submission,
    SubmissionView,
};
use crate::transcript::Transcript;

verus! {

/// What a submission establishes of a claim: the error of the first
/// check that failed, or the fact. The notary's signature is checked
/// first, then the server's certificates, then the commitments of the
/// disclosed ranges, then the assertions of the claim's pipeline. A
/// failure anywhere leaves no fact.
pub open spec fn verification(submission: SubmissionView, claim: ClaimView) -> Result<
    FactView,
    VerificationErrorView,
> {
    match transcripts_of(submission) {
        Err(error) => Err(error),
        Ok((sent, received)) => extraction(claim, sent, received),
    }
}

/// The text that a transcript shows, or a note that it shows none.
pub open spec fn displayed_text(content: Seq<Option<u8>>) -> Seq<char> {
    match reading_of(content) {
        Some(reading) => reading.text,
        None => "Invalid UTF-8"@,
    }
}

/// What a verified session shows: the server, when it was recorded, and
/// the text of both directions with the withheld bytes blotted out.
#[derive(Debug, PartialEq, Eq)]
pub struct SessionReport {
    pub server_name: String,
    /// `None` where the time is more than 64 bits hold.
    pub recorded_time: Option<u64>,
    pub sent: String,
    pub received: String,
}

/// Verifying the same submission for the same claim twice gives the same
/// outcome, the fact or the error with all that it carries: whatever two
/// calls of `verify_and_extract` return on it, at whatever times, the two
/// results say the same.
pub proof fn lemma_verification_repeats(
    submission: SubmissionView,
    claim: ClaimView,
    first: Result<Fact, VerificationError>,
    second: Result<Fact, VerificationError>,
)
    requires
        extraction_view(first) == verification(submission, claim),
        extraction_view(second) == verification(submission, claim),
    ensures
        extraction_view(first) == extraction_view(second),
        first is Ok <==> second is Ok,
        first matches Ok(fact) ==> second matches Ok(again) && fact@ == again@,
        first matches Err(error) ==> second matches Err(again) && error@ == again@,
{
}

/// No fact comes out of a submission that failed a cryptographic check,
/// and the error says which check failed first.
pub proof fn lemma_no_fact_without_proof(submission: SubmissionView, claim: ClaimView)
    ensures
        submission is Malformed ==> verification(submission, claim) == Err::<
            FactView,
            VerificationErrorView,
        >(VerificationErrorView::Deserialization),
        submission matches SubmissionView::Decoded { session, attestation } ==> {
            &&& attestation is InvalidSignature ==> verification(submission, claim) == Err::<
                FactView,
                VerificationErrorView,
            >(VerificationErrorView::Signature)
            &&& attestation is InvalidCertificate ==> verification(submission, claim) == Err::<
                FactView,
                VerificationErrorView,
            >(VerificationErrorView::Certificate)
            &&& attestation matches crate::session::AttestationView::Valid { opening }
                ==> opening is CommitmentMismatch ==> verification(submission, claim) == Err::<
                FactView,
                VerificationErrorView,
            >(VerificationErrorView::Commitment)
        },
        verification(submission, claim) is Ok ==> transcripts_of(submission) is Ok,
{
}

/// The text that `transcript` shows, with `redacted_char()` for each
/// withheld byte.
pub fn display_text(transcript: &Transcript) -> (text: String)
    ensures
        text@ == displayed_text(transcript@),
{
    let cells = transcript.cells();
    match read_cells(&cells) {
        Some(reading) => reading.text,
        None => String::from_str("Invalid UTF-8"),
    }
}

/// Verifies a submission and reports what the session shows.
pub fn verify_and_render(submission: &Submission, reference_time: u64) -> (r: Result<
    SessionReport,
    VerificationError,
>)
    ensures
        match r {
            Ok(report) => {
                &&& session_of(submission@) matches Ok(session)
                &&& transcripts_of(submission@) matches Ok((sent, received))
                &&& report.server_name@ == session.server_name
                &&& report.recorded_time == recorded_time_of(reference_time, session.header.time)
                &&& report.sent@ == displayed_text(sent)
                &&& report.received@ == displayed_text(received)
            },
            Err(error) => transcripts_of(submission@) == Err::<
                (Seq<Option<u8>>, Seq<Option<u8>>),
                VerificationErrorView,
            >(error@),
        },
{
    let verified = match verify_session(submission, reference_time) {
        Ok(verified) => verified,
        Err(error) => {
            return Err(error);
        },
    };
    let (sent, received) = match verify_substrings(submission) {
        Ok(pair) => pair,
        Err(error) => {
            return Err(error);
        },
    };
    Ok(
        SessionReport {
            server_name: verified.session_info.server_name.clone(),
            recorded_time: verified.recorded_time,
            sent: display_text(sent),
            received: display_text(received),
        },
    )
}

/// Verifies a submission and extracts the fact that `claim` asks for.
/// `reference_time` is when the proof was submitted; it dates the session
/// and does not bear on the fact.
pub fn verify_and_extract(submission: &Submission, claim: &Claim, reference_time: u64) -> (r:
    Result<Fact, VerificationError>)
    ensures
        extraction_view(r) == verification(submission@, claim@),
{
    match verify_session(submission, reference_time) {
        Ok(_) => {},
        Err(error) => {
            return Err(error);
        },
    }
    match verify_substrings(submission) {
        Ok((sent, received)) => extract_fact(claim, sent, received),
        Err(error) => Err(error),
    }
}

} // verus!
