use notary_facts::assertion::{Assertion, FailureKind};
use notary_facts::error::{Direction, VerificationError};
use notary_facts::fact::{extract_fact, Claim, Fact, PipelineKind};
use notary_facts::transcript::{ByteRange, Transcript};

fn name(s: &str) -> String {
    s.to_string()
}

fn shown(text: &str) -> Transcript {
    Transcript::new(text.as_bytes().to_vec(), vec![]).unwrap()
}

fn ownership_of(username: &str) -> Claim {
    Claim { kind: PipelineKind::Ownership, username: name(username) }
}

fn followers_of(username: &str) -> Claim {
    Claim { kind: PipelineKind::FollowerCount, username: name(username) }
}

const SETTINGS_REQUEST: &str =
    "GET https://api.x.com/1.1/account/settings.json HTTP/1.1\r\nhost: api.x.com\r\naccept: */*\r\n\r\n";

const GRAPHQL_REQUEST: &str = "GET https://x.com/i/api/graphql/G3KGOASz96M-Qu0nwmGXNg/UserByScreenName?variables=%7B%22screen_name%22%3A%22alice%22%7D HTTP/1.1\r\nhost: x.com\r\n\r\n";

const USER_LINE: &str =
    "{\"data\":{\"user\":{\"result\":{\"legacy\":{\"screen_name\":\"alice\",\"followers_count\":42}}}}}";

fn settings_response(screen_name: &str) -> String {
    format!(
        "HTTP/1.1 200 OK\r\ncontent-type: application/json\r\n\r\n{{\"protected\":false,\"screen_name\":\"{}\",\"language\":\"en\"}}",
        screen_name
    )
}

fn user_response() -> String {
    format!("HTTP/1.1 200 OK\r\ntransfer-encoding: chunked\r\n\r\n5a\r\n{}", USER_LINE)
}

#[test]
fn ownership_pipeline_lists_its_assertions() {
    let claim = ownership_of("alice");
    assert_eq!(
        claim.sent_assertions(),
        vec![Assertion::PrefixMatch(name("GET https://api.x.com/1.1/account/settings.json"))]
    );
    assert_eq!(
        claim.received_assertions(),
        vec![Assertion::IdentityEquals { path: vec![name("screen_name")], expected: name("alice") }]
    );
}

#[test]
fn follower_pipeline_lists_its_assertions() {
    let claim = followers_of("alice");
    assert_eq!(
        claim.sent_assertions(),
        vec![
            Assertion::PrefixMatch(name("GET https://x.com/i/api/graphql/")),
            Assertion::Contains(name(
                "UserByScreenName?variables=%7B%22screen_name%22%3A%22alice"
            )),
        ]
    );
    let legacy = |last: &str| {
        vec![name("data"), name("user"), name("result"), name("legacy"), name(last)]
    };
    assert_eq!(
        claim.received_assertions(),
        vec![
            Assertion::IdentityEquals { path: legacy("screen_name"), expected: name("alice") },
            Assertion::ExtractCount { path: legacy("followers_count") },
        ]
    );
}

#[test]
fn ownership_is_confirmed_for_the_named_account() {
    let fact = extract_fact(
        &ownership_of("alice"),
        &shown(SETTINGS_REQUEST),
        &shown(&settings_response("alice")),
    );
    assert_eq!(fact, Ok(Fact::OwnershipConfirmed { username: name("alice") }));
}

#[test]
fn ownership_of_another_account_is_an_assertion_failure() {
    let error = extract_fact(
        &ownership_of("alice"),
        &shown(SETTINGS_REQUEST),
        &shown(&settings_response("bob")),
    )
    .unwrap_err();
    match error {
        VerificationError::Assertion { direction, failure } => {
            assert_eq!(direction, Direction::Received);
            assert_eq!(failure.index, 0);
            assert_eq!(failure.rejection.kind, FailureKind::Mismatch);
            assert_eq!(failure.rejection.description, "Field 'screen_name' is not 'alice'");
            assert_eq!(failure.rejection.observed, "bob");
        },
        other => panic!("expected an assertion failure, got {:?}", other),
    }
}

#[test]
fn username_comparison_is_case_insensitive() {
    let fact = extract_fact(
        &ownership_of("Alice"),
        &shown(SETTINGS_REQUEST),
        &shown(&settings_response("alice")),
    );
    assert_eq!(fact, Ok(Fact::OwnershipConfirmed { username: name("Alice") }));
    let error = extract_fact(
        &ownership_of("Alice"),
        &shown(SETTINGS_REQUEST),
        &shown(&settings_response("bob")),
    );
    assert!(matches!(error, Err(VerificationError::Assertion { .. })));
}

#[test]
fn ownership_needs_the_settings_request() {
    let error = extract_fact(
        &ownership_of("alice"),
        &shown("GET https://api.x.com/1.1/users/show.json?screen_name=alice HTTP/1.1\r\n\r\n"),
        &shown(&settings_response("alice")),
    )
    .unwrap_err();
    match error {
        VerificationError::Assertion { direction, failure } => {
            assert_eq!(direction, Direction::Sent);
            assert_eq!(failure.index, 0);
            assert_eq!(failure.rejection.kind, FailureKind::PrefixNotFound);
        },
        other => panic!("expected an assertion failure, got {:?}", other),
    }
}

#[test]
fn ownership_accepts_leading_whitespace_in_the_request() {
    let sent = format!("\r\n  {}", SETTINGS_REQUEST);
    let fact =
        extract_fact(&ownership_of("alice"), &shown(&sent), &shown(&settings_response("alice")));
    assert_eq!(fact, Ok(Fact::OwnershipConfirmed { username: name("alice") }));
}

#[test]
fn ownership_without_a_screen_name_is_an_encoding_error() {
    let response = "HTTP/1.1 200 OK\r\n\r\n{\"protected\":false}";
    let error =
        extract_fact(&ownership_of("alice"), &shown(SETTINGS_REQUEST), &shown(response)).unwrap_err();
    match error {
        VerificationError::Encoding { direction, failure } => {
            assert_eq!(direction, Direction::Received);
            assert_eq!(failure.rejection.kind, FailureKind::MissingField);
            assert_eq!(failure.rejection.description, "Field 'screen_name' was not found");
        },
        other => panic!("expected an encoding error, got {:?}", other),
    }
    let numeric = "{\"screen_name\":7}";
    let error =
        extract_fact(&ownership_of("alice"), &shown(SETTINGS_REQUEST), &shown(numeric)).unwrap_err();
    assert!(matches!(
        error,
        VerificationError::Encoding { direction: Direction::Received, ref failure }
            if failure.rejection.kind == FailureKind::WrongType
    ));
}

#[test]
fn a_response_that_is_no_structured_value_is_an_encoding_error() {
    for response in ["", "HTTP/1.1 200 OK\r\n\r\n<html>", "{\"screen_name\":\"alice\"}\r\n0\r\n\r\n"] {
        let error = extract_fact(&ownership_of("alice"), &shown(SETTINGS_REQUEST), &shown(response))
            .unwrap_err();
        assert!(
            matches!(error, VerificationError::Encoding { direction: Direction::Received, .. }),
            "{:?}",
            response
        );
    }
}

#[test]
fn bytes_that_are_not_text_are_an_encoding_error() {
    let sent = Transcript::new(vec![0xC0, 0x80], vec![]).unwrap();
    let error =
        extract_fact(&ownership_of("alice"), &sent, &shown(&settings_response("alice"))).unwrap_err();
    assert!(matches!(
        error,
        VerificationError::Encoding { direction: Direction::Sent, ref failure }
            if failure.index == 0 && failure.rejection.kind == FailureKind::NotText
    ));
}

#[test]
fn follower_count_is_extracted_from_the_last_line() {
    let fact = extract_fact(&followers_of("alice"), &shown(GRAPHQL_REQUEST), &shown(USER_LINE));
    assert_eq!(fact, Ok(Fact::FollowerCount { username: name("alice"), count: 42 }));
    let framed =
        extract_fact(&followers_of("alice"), &shown(GRAPHQL_REQUEST), &shown(&user_response()));
    assert_eq!(framed, Ok(Fact::FollowerCount { username: name("alice"), count: 42 }));
}

#[test]
fn follower_count_takes_the_largest_count() {
    let response = "{\"data\":{\"user\":{\"result\":{\"legacy\":{\"screen_name\":\"alice\",\"followers_count\":18446744073709551615}}}}}";
    let fact = extract_fact(&followers_of("alice"), &shown(GRAPHQL_REQUEST), &shown(response));
    assert_eq!(fact, Ok(Fact::FollowerCount { username: name("alice"), count: u64::MAX }));
}

#[test]
fn follower_count_needs_the_query_for_the_claimed_account() {
    let error =
        extract_fact(&followers_of("bob"), &shown(GRAPHQL_REQUEST), &shown(USER_LINE)).unwrap_err();
    assert!(matches!(
        error,
        VerificationError::Assertion { direction: Direction::Sent, ref failure }
            if failure.index == 1 && failure.rejection.kind == FailureKind::SubstringNotFound
    ));
    let other_endpoint = "GET https://x.com/home?UserByScreenName?variables=%7B%22screen_name%22%3A%22alice HTTP/1.1";
    let error =
        extract_fact(&followers_of("alice"), &shown(other_endpoint), &shown(USER_LINE)).unwrap_err();
    assert!(matches!(
        error,
        VerificationError::Assertion { direction: Direction::Sent, ref failure }
            if failure.index == 0 && failure.rejection.kind == FailureKind::PrefixNotFound
    ));
}

#[test]
fn follower_count_needs_the_record_of_the_claimed_account() {
    let response = "{\"data\":{\"user\":{\"result\":{\"legacy\":{\"screen_name\":\"bob\",\"followers_count\":42}}}}}";
    let error =
        extract_fact(&followers_of("alice"), &shown(GRAPHQL_REQUEST), &shown(response)).unwrap_err();
    assert!(matches!(
        error,
        VerificationError::Assertion { direction: Direction::Received, ref failure }
            if failure.index == 0 && failure.rejection.observed == "bob"
    ));
}

#[test]
fn follower_count_needs_a_user_record() {
    let response = "{\"data\":{\"user\":{}}}";
    let error =
        extract_fact(&followers_of("alice"), &shown(GRAPHQL_REQUEST), &shown(response)).unwrap_err();
    match error {
        VerificationError::Encoding { direction, failure } => {
            assert_eq!(direction, Direction::Received);
            assert_eq!(failure.index, 0);
            assert_eq!(failure.rejection.description, "Field 'data.user.result' was not found");
        },
        other => panic!("expected an encoding error, got {:?}", other),
    }
}

#[test]
fn follower_count_must_be_a_non_negative_integer() {
    for count in ["-1", "4.2", "\"42\"", "null"] {
        let response = format!(
            "{{\"data\":{{\"user\":{{\"result\":{{\"legacy\":{{\"screen_name\":\"alice\",\"followers_count\":{}}}}}}}}}}}",
            count
        );
        let error = extract_fact(&followers_of("alice"), &shown(GRAPHQL_REQUEST), &shown(&response))
            .unwrap_err();
        assert!(
            matches!(
                error,
                VerificationError::Encoding { direction: Direction::Received, ref failure }
                    if failure.index == 1 && failure.rejection.kind == FailureKind::WrongType
            ),
            "{}",
            count
        );
    }
    let missing = "{\"data\":{\"user\":{\"result\":{\"legacy\":{\"screen_name\":\"alice\"}}}}}";
    let error =
        extract_fact(&followers_of("alice"), &shown(GRAPHQL_REQUEST), &shown(missing)).unwrap_err();
    assert!(matches!(
        error,
        VerificationError::Encoding { ref failure, .. }
            if failure.index == 1 && failure.rejection.kind == FailureKind::MissingField
    ));
}

#[test]
fn redacted_headers_do_not_stand_in_the_way() {
    let sent = "GET https://api.x.com/1.1/account/settings.json HTTP/1.1\r\ncookie: auth_token=0123456789\r\n\r\n";
    let start = sent.find("0123456789").unwrap();
    let transcript =
        Transcript::new(sent.as_bytes().to_vec(), vec![ByteRange { start, end: start + 10 }]).unwrap();
    let fact =
        extract_fact(&ownership_of("alice"), &transcript, &shown(&settings_response("alice")));
    assert_eq!(fact, Ok(Fact::OwnershipConfirmed { username: name("alice") }));
}

#[test]
fn a_redacted_screen_name_confirms_nothing() {
    let response = settings_response("alice");
    let start = response.find("alice").unwrap();
    let transcript =
        Transcript::new(response.into_bytes(), vec![ByteRange { start, end: start + 5 }]).unwrap();
    for claimed in ["alice", "XXXXX", "xxxxx", "X", ""] {
        let error =
            extract_fact(&ownership_of(claimed), &shown(SETTINGS_REQUEST), &transcript).unwrap_err();
        assert!(
            matches!(
                error,
                VerificationError::Assertion { direction: Direction::Received, ref failure }
                    if failure.index == 0 && failure.rejection.kind == FailureKind::Withheld
            ),
            "{}: {:?}",
            claimed,
            error
        );
    }
}

#[test]
fn a_redacted_part_of_the_last_line_confirms_nothing() {
    let response = "{\"email\":\"a@b.c\",\"screen_name\":\"alice\"}";
    let start = response.find("a@b.c").unwrap();
    let transcript = Transcript::new(
        response.as_bytes().to_vec(),
        vec![ByteRange { start, end: start + 5 }],
    )
    .unwrap();
    let error =
        extract_fact(&ownership_of("alice"), &shown(SETTINGS_REQUEST), &transcript).unwrap_err();
    assert!(matches!(
        error,
        VerificationError::Assertion { ref failure, .. }
            if failure.rejection.kind == FailureKind::Withheld
    ));
}

#[test]
fn a_redacted_request_line_confirms_nothing() {
    let start = SETTINGS_REQUEST.find("account").unwrap();
    let sent = Transcript::new(
        SETTINGS_REQUEST.as_bytes().to_vec(),
        vec![ByteRange { start, end: start + 7 }],
    )
    .unwrap();
    let error =
        extract_fact(&ownership_of("alice"), &sent, &shown(&settings_response("alice"))).unwrap_err();
    assert!(matches!(
        error,
        VerificationError::Assertion { direction: Direction::Sent, ref failure }
            if failure.index == 0 && failure.rejection.kind == FailureKind::PrefixNotFound
    ));
}

#[test]
fn a_name_withheld_on_both_sides_gives_no_follower_count() {
    let sent_start = GRAPHQL_REQUEST.find("alice").unwrap();
    let sent = Transcript::new(
        GRAPHQL_REQUEST.as_bytes().to_vec(),
        vec![ByteRange { start: sent_start, end: sent_start + 5 }],
    )
    .unwrap();
    let received_start = USER_LINE.find("alice").unwrap();
    let received = Transcript::new(
        USER_LINE.as_bytes().to_vec(),
        vec![ByteRange { start: received_start, end: received_start + 5 }],
    )
    .unwrap();
    for claimed in ["XXXXX", "alice", "X"] {
        let error = extract_fact(&followers_of(claimed), &sent, &received).unwrap_err();
        assert!(
            matches!(
                error,
                VerificationError::Assertion { direction: Direction::Sent, ref failure }
                    if failure.index == 1
            ),
            "{}: {:?}",
            claimed,
            error
        );
        let only_response =
            extract_fact(&followers_of(claimed), &shown(&GRAPHQL_REQUEST.replace("alice", claimed)), &received)
                .unwrap_err();
        assert!(
            matches!(
                only_response,
                VerificationError::Assertion { direction: Direction::Received, ref failure }
                    if failure.rejection.kind == FailureKind::Withheld
            ),
            "{}: {:?}",
            claimed,
            only_response
        );
    }
}
