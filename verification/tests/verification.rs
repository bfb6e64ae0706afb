use notary_facts::error::{Direction, VerificationError};
use notary_facts::fact::{Claim, Fact, PipelineKind};
use notary_facts::session::{
    recorded_time, verify_session, verify_substrings, AttestationOutcome, OpeningOutcome,
    SessionHeader, SessionInfo, SessionProof, Submission,
};
use notary_facts::transcript::{ByteRange, Transcript, REDACTED_BYTE};
use notary_facts::verification::{
    display_text, verify_and_extract, verify_and_render, SessionReport,
};

const REQUEST: &str = "GET https://api.x.com/1.1/account/settings.json HTTP/1.1\r\n\r\n";

fn account(s: &str) -> String {
    s.to_string()
}

fn plain(text: &str) -> Transcript {
    Transcript::new(text.as_bytes().to_vec(), vec![]).unwrap()
}

fn session_at(time: u64) -> SessionProof {
    SessionProof {
        header: SessionHeader { time, root: vec![7; 32] },
        session_info: SessionInfo { server_name: account("api.x.com") },
        notary_signature: vec![1, 2, 3],
    }
}

fn opened(screen_name: &str) -> Submission {
    let response = format!("HTTP/1.1 200 OK\r\n\r\n{{\"screen_name\":\"{}\"}}", screen_name);
    Submission::Decoded {
        session: session_at(1_700_000_000),
        attestation: AttestationOutcome::Valid {
            opening: OpeningOutcome::Opened { sent: plain(REQUEST), received: plain(&response) },
        },
    }
}

fn refused(attestation: AttestationOutcome) -> Submission {
    Submission::Decoded { session: session_at(5), attestation }
}

fn owns(username: &str) -> Claim {
    Claim { kind: PipelineKind::Ownership, username: account(username) }
}

#[test]
fn recorded_time_adds_the_offset() {
    assert_eq!(recorded_time(1_700_000_000, 3_600), Some(1_700_003_600));
    assert_eq!(recorded_time(0, 0), Some(0));
    assert_eq!(recorded_time(u64::MAX, 0), Some(u64::MAX));
    assert_eq!(recorded_time(u64::MAX - 1, 1), Some(u64::MAX));
    assert_eq!(recorded_time(u64::MAX, 1), None);
    assert_eq!(recorded_time(1 << 63, 1 << 63), None);
}

#[test]
fn well_formed_ownership_proof_yields_the_fact() {
    assert_eq!(
        verify_and_extract(&opened("alice"), &owns("alice"), 0),
        Ok(Fact::OwnershipConfirmed { username: account("alice") })
    );
}

#[test]
fn ownership_proof_for_another_account_fails() {
    let error = verify_and_extract(&opened("bob"), &owns("alice"), 0).unwrap_err();
    assert!(matches!(error, VerificationError::Assertion { direction: Direction::Received, .. }));
    assert_eq!(error.message(), "Field 'screen_name' is not 'alice': 'bob'");
}

#[test]
fn follower_count_proof_yields_the_fact() {
    let sent = "GET https://x.com/i/api/graphql/abc/UserByScreenName?variables=%7B%22screen_name%22%3A%22alice%22%7D HTTP/1.1\r\n\r\n";
    let received = "{\"data\":{\"user\":{\"result\":{\"legacy\":{\"screen_name\":\"alice\",\"followers_count\":42}}}}}";
    let submission = Submission::Decoded {
        session: session_at(9),
        attestation: AttestationOutcome::Valid {
            opening: OpeningOutcome::Opened { sent: plain(sent), received: plain(received) },
        },
    };
    let claim = Claim { kind: PipelineKind::FollowerCount, username: account("alice") };
    assert_eq!(
        verify_and_extract(&submission, &claim, 1),
        Ok(Fact::FollowerCount { username: account("alice"), count: 42 })
    );
}

#[test]
fn malformed_envelope_is_a_deserialization_error() {
    let error = verify_and_extract(&Submission::Malformed, &owns("alice"), 0).unwrap_err();
    assert_eq!(error, VerificationError::Deserialization);
    assert_eq!(error.message(), "Malformed proof envelope");
}

#[test]
fn invalid_signature_is_a_signature_error() {
    let submission = refused(AttestationOutcome::InvalidSignature);
    assert_eq!(
        verify_and_extract(&submission, &owns("alice"), 0),
        Err(VerificationError::Signature)
    );
    assert_eq!(
        VerificationError::Signature.message(),
        "Session verification failed: invalid notary signature"
    );
}

#[test]
fn invalid_certificate_is_a_certificate_error() {
    let submission = refused(AttestationOutcome::InvalidCertificate);
    assert_eq!(
        verify_and_extract(&submission, &owns("alice"), 0),
        Err(VerificationError::Certificate)
    );
    assert_eq!(
        VerificationError::Certificate.message(),
        "Session verification failed: server identity does not match its certificates"
    );
}

#[test]
fn commitment_mismatch_is_a_commitment_error() {
    let submission =
        refused(AttestationOutcome::Valid { opening: OpeningOutcome::CommitmentMismatch });
    assert_eq!(
        verify_and_extract(&submission, &owns("alice"), 0),
        Err(VerificationError::Commitment)
    );
    assert_eq!(
        VerificationError::Commitment.message(),
        "Substrings verification failed: a disclosed range does not open"
    );
}

#[test]
fn verifying_twice_gives_the_same_result() {
    let submission = opened("alice");
    for claim in [owns("alice"), owns("ALICE"), owns("bob")] {
        let first = verify_and_extract(&submission, &claim, 10);
        let second = verify_and_extract(&submission, &claim, 10);
        assert_eq!(first, second);
    }
    let equal_copy = opened("alice");
    assert_eq!(
        verify_and_extract(&submission, &owns("bob"), 10),
        verify_and_extract(&equal_copy, &owns("bob"), 10)
    );
    for failed in [
        Submission::Malformed,
        refused(AttestationOutcome::InvalidSignature),
        refused(AttestationOutcome::InvalidCertificate),
        refused(AttestationOutcome::Valid { opening: OpeningOutcome::CommitmentMismatch }),
    ] {
        assert_eq!(
            verify_and_extract(&failed, &owns("alice"), 10),
            verify_and_extract(&failed, &owns("alice"), 10)
        );
    }
}

#[test]
fn reference_time_does_not_change_the_fact() {
    let submission = opened("alice");
    assert_eq!(
        verify_and_extract(&submission, &owns("alice"), 0),
        verify_and_extract(&submission, &owns("alice"), u64::MAX)
    );
}

#[test]
fn session_is_handed_out_only_after_a_valid_attestation() {
    let submission = opened("alice");
    let verified = verify_session(&submission, 100).unwrap();
    assert_eq!(verified.header.time, 1_700_000_000);
    assert_eq!(verified.header.root, vec![7; 32]);
    assert_eq!(verified.session_info.server_name, "api.x.com");
    assert_eq!(verified.recorded_time, Some(1_700_000_100));
    assert_eq!(verify_session(&Submission::Malformed, 0).err(), Some(VerificationError::Deserialization));
    assert_eq!(
        verify_session(&refused(AttestationOutcome::InvalidSignature), 0).err(),
        Some(VerificationError::Signature)
    );
    assert_eq!(
        verify_session(&refused(AttestationOutcome::InvalidCertificate), 0).err(),
        Some(VerificationError::Certificate)
    );
    let unopened = refused(AttestationOutcome::Valid { opening: OpeningOutcome::CommitmentMismatch });
    assert_eq!(verify_session(&unopened, 1).unwrap().recorded_time, Some(6));
    assert_eq!(verify_session(&unopened, u64::MAX).unwrap().recorded_time, None);
}

#[test]
fn transcripts_are_handed_out_only_after_every_check() {
    let submission = opened("alice");
    let (sent, received) = match verify_substrings(&submission) {
        Ok(pair) => pair,
        Err(error) => panic!("{:?}", error),
    };
    assert_eq!(sent.render(REDACTED_BYTE), REQUEST.as_bytes().to_vec());
    assert_eq!(received.len(), 42);
    assert_eq!(verify_substrings(&Submission::Malformed).err(), Some(VerificationError::Deserialization));
    assert_eq!(
        verify_substrings(&refused(AttestationOutcome::InvalidSignature)).err(),
        Some(VerificationError::Signature)
    );
    assert_eq!(
        verify_substrings(&refused(AttestationOutcome::InvalidCertificate)).err(),
        Some(VerificationError::Certificate)
    );
    assert_eq!(
        verify_substrings(&refused(AttestationOutcome::Valid {
            opening: OpeningOutcome::CommitmentMismatch
        }))
        .err(),
        Some(VerificationError::Commitment)
    );
}

#[test]
fn display_text_blots_out_withheld_bytes() {
    let transcript = Transcript::new(
        b"authorization: Bearer abcdef\r\n".to_vec(),
        vec![ByteRange { start: 22, end: 28 }],
    )
    .unwrap();
    assert_eq!(display_text(&transcript), "authorization: Bearer XXXXXX\r\n");
    assert_eq!(display_text(&plain("")), "");
    let binary = Transcript::new(vec![0x80, 0x81], vec![]).unwrap();
    assert_eq!(display_text(&binary), "Invalid UTF-8");
}

#[test]
fn render_reports_the_session() {
    let sent = Transcript::new(
        b"GET /private HTTP/1.1\r\ncookie: k=v\r\n\r\n".to_vec(),
        vec![ByteRange { start: 31, end: 34 }],
    )
    .unwrap();
    let submission = Submission::Decoded {
        session: session_at(1_000),
        attestation: AttestationOutcome::Valid {
            opening: OpeningOutcome::Opened { sent, received: plain("HTTP/1.1 204 No Content\r\n\r\n") },
        },
    };
    assert_eq!(
        verify_and_render(&submission, 500),
        Ok(SessionReport {
            server_name: account("api.x.com"),
            recorded_time: Some(1_500),
            sent: account("GET /private HTTP/1.1\r\ncookie: XXX\r\n\r\n"),
            received: account("HTTP/1.1 204 No Content\r\n\r\n"),
        })
    );
    assert_eq!(verify_and_render(&submission, u64::MAX).unwrap().recorded_time, None);
}

#[test]
fn render_refuses_what_did_not_verify() {
    assert_eq!(verify_and_render(&Submission::Malformed, 0), Err(VerificationError::Deserialization));
    assert_eq!(
        verify_and_render(&refused(AttestationOutcome::InvalidSignature), 0),
        Err(VerificationError::Signature)
    );
    assert_eq!(
        verify_and_render(&refused(AttestationOutcome::InvalidCertificate), 0),
        Err(VerificationError::Certificate)
    );
    assert_eq!(
        verify_and_render(
            &refused(AttestationOutcome::Valid { opening: OpeningOutcome::CommitmentMismatch }),
            0
        ),
        Err(VerificationError::Commitment)
    );
}
