//! The two pipelines: what is asserted of the sent and of the received
//! transcript for each kind of claim, and the fact that comes out.

use vstd::prelude::*;
use vstd::string::StringExecFns;
use crate::assertion::{
    count_field, structured_of, Assertion, AssertionView, ExtractedValue, ExtractedView,
    RejectionView,
};
use crate::engine::{evaluate, evaluation, evaluation_of_first, transcript_evaluation};
use crate::error::{error_of_failure, Direction, VerificationError, VerificationErrorView};
use crate::json::{count_of, json_of_text, lookup, text_of, JsonView};
use crate::reading::{reading_of, ReadingView};
use crate::text::{
    has_disclosed_prefix, has_disclosed_substring, last_line_span, same_identity_spec,
    span_disclosed,
};
use crate::transcript::Transcript;

verus! {

/// The kinds of claim that a proof can support.
#[derive(Clone, Copy, Debug, PartialEq, Eq, Structural)]
pub enum PipelineKind {
    /// The prover owns an account.
    Ownership,
    /// An account has so many followers.
    FollowerCount,
}

/// What the prover claims: the kind of fact and the account it is about.
#[derive(Debug, PartialEq, Eq)]
pub struct Claim {
    pub kind: PipelineKind,
    pub username: String,
}

pub struct ClaimView {
    pub kind: PipelineKind,
    pub username: Seq<char>,
}

impl View for Claim {
    type V = ClaimView;

    open spec fn view(&self) -> ClaimView {
        ClaimView { kind: self.kind, username: self.username@ }
    }
}

/// What a verified proof establishes.
#[derive(Debug, PartialEq, Eq)]
pub enum Fact {
    OwnershipConfirmed { username: String },
    FollowerCount { username: String, count: u64 },
}

pub enum FactView {
    OwnershipConfirmed { username: Seq<char> },
    FollowerCount { username: Seq<char>, count: u64 },
}

impl View for Fact {
    type V = FactView;

    open spec fn view(&self) -> FactView {
        match self {
            Fact::OwnershipConfirmed { username } => FactView::OwnershipConfirmed {
                username: username@,
            },
            Fact::FollowerCount { username, count } => FactView::FollowerCount {
                username: username@,
                count: *count,
            },
        }
    }
}

/// How a request for the settings of the prover's own account begins.
pub open spec fn ownership_prefix() -> Seq<char> {
    "GET https://api.x.com/1.1/account/settings.json"@
}

/// How a request to the GraphQL endpoint begins.
pub open spec fn followers_prefix() -> Seq<char> {
    "GET https://x.com/i/api/graphql/"@
}

/// The URL-encoded query parameter that names the account `username`.
pub open spec fn followers_query(username: Seq<char>) -> Seq<char> {
    "UserByScreenName?variables=%7B%22screen_name%22%3A%22"@ + username
}

/// Where the account's name stands in the settings of an account.
pub open spec fn ownership_name_path() -> Seq<Seq<char>> {
    seq!["screen_name"@]
}

/// Where the account's name stands in a user record.
pub open spec fn followers_name_path() -> Seq<Seq<char>> {
    seq!["data"@, "user"@, "result"@, "legacy"@, "screen_name"@]
}

/// Where the number of followers stands in a user record.
pub open spec fn followers_count_path() -> Seq<Seq<char>> {
    seq!["data"@, "user"@, "result"@, "legacy"@, "followers_count"@]
}

/// What a pipeline asserts of the sent transcript.
pub open spec fn sent_assertions_of(claim: ClaimView) -> Seq<AssertionView> {
    match claim.kind {
        PipelineKind::Ownership => seq![AssertionView::PrefixMatch(ownership_prefix())],
        PipelineKind::FollowerCount => seq![
            AssertionView::PrefixMatch(followers_prefix()),
            AssertionView::Contains(followers_query(claim.username)),
        ],
    }
}

/// What a pipeline asserts of the received transcript.
pub open spec fn received_assertions_of(claim: ClaimView) -> Seq<AssertionView> {
    match claim.kind {
        PipelineKind::Ownership => seq![
            AssertionView::IdentityEquals {
                path: ownership_name_path(),
                expected: claim.username,
            },
        ],
        PipelineKind::FollowerCount => seq![
            AssertionView::IdentityEquals {
                path: followers_name_path(),
                expected: claim.username,
            },
            AssertionView::ExtractCount { path: followers_count_path() },
        ],
    }
}

/// The fact that a claim and the values handed out by its pipeline make.
pub open spec fn fact_of(claim: ClaimView, values: Seq<ExtractedView>) -> FactView {
    match claim.kind {
        PipelineKind::Ownership => FactView::OwnershipConfirmed { username: claim.username },
        PipelineKind::FollowerCount => FactView::FollowerCount {
            username: claim.username,
            count: values[0]->Count_0,
        },
    }
}

/// What a pipeline makes of the two transcripts of a session: the first
/// failure among its assertions, those on the sent transcript before those
/// on the received one, or else the fact.
pub open spec fn extraction(
    claim: ClaimView,
    sent: Seq<Option<u8>>,
    received: Seq<Option<u8>>,
) -> Result<FactView, VerificationErrorView> {
    match transcript_evaluation(sent, sent_assertions_of(claim)) {
        Err(failure) => Err(error_of_failure(Direction::Sent, failure)),
        Ok(_) => match transcript_evaluation(received, received_assertions_of(claim)) {
            Err(failure) => Err(error_of_failure(Direction::Received, failure)),
            Ok(values) => Ok(fact_of(claim, values)),
        },
    }
}

pub open spec fn extraction_view(r: Result<Fact, VerificationError>) -> Result<
    FactView,
    VerificationErrorView,
> {
    match r {
        Ok(fact) => Ok(fact@),
        Err(error) => Err(error@),
    }
}

fn keys_of(first: &str, second: &str, third: &str, fourth: &str, fifth: &str) -> (path: Vec<
    String,
>)
    ensures
        path.deep_view() == seq![first@, second@, third@, fourth@, fifth@],
{
    let mut path: Vec<String> = Vec::new();
    path.push(String::from_str(first));
    path.push(String::from_str(second));
    path.push(String::from_str(third));
    path.push(String::from_str(fourth));
    path.push(String::from_str(fifth));
    assert(path.deep_view() =~= seq![first@, second@, third@, fourth@, fifth@]);
    path
}

impl Claim {
    /// The assertions that the claim's pipeline makes of the sent
    /// transcript.
    pub fn sent_assertions(&self) -> (list: Vec<Assertion>)
        ensures
            list.deep_view() == sent_assertions_of(self@),
    {
        let mut list: Vec<Assertion> = Vec::new();
        match self.kind {
            PipelineKind::Ownership => {
                list.push(
                    Assertion::PrefixMatch(
                        String::from_str("GET https://api.x.com/1.1/account/settings.json"),
                    ),
                );
            },
            PipelineKind::FollowerCount => {
                list.push(Assertion::PrefixMatch(String::from_str("GET https://x.com/i/api/graphql/")));
                let mut query = String::from_str(
                    "UserByScreenName?variables=%7B%22screen_name%22%3A%22",
                );
                query.append(self.username.as_str());
                list.push(Assertion::Contains(query));
            },
        }
        assert(list.deep_view() =~= sent_assertions_of(self@));
        list
    }

    /// The assertions that the claim's pipeline makes of the received
    /// transcript.
    pub fn received_assertions(&self) -> (list: Vec<Assertion>)
        ensures
            list.deep_view() == received_assertions_of(self@),
    {
        let mut list: Vec<Assertion> = Vec::new();
        match self.kind {
            PipelineKind::Ownership => {
                let mut path: Vec<String> = Vec::new();
                path.push(String::from_str("screen_name"));
                assert(path.deep_view() =~= ownership_name_path());
                list.push(Assertion::IdentityEquals { path, expected: self.username.clone() });
            },
            PipelineKind::FollowerCount => {
                let name = keys_of("data", "user", "result", "legacy", "screen_name");
                let count = keys_of("data", "user", "result", "legacy", "followers_count");
                list.push(
                    Assertion::IdentityEquals { path: name, expected: self.username.clone() },
                );
                list.push(Assertion::ExtractCount { path: count });
            },
        }
        assert(list.deep_view() =~= received_assertions_of(self@));
        list
    }
}

/// The structured value that a response carries: its last line read as
/// one, where the response is text and nothing of that line is withheld.
pub open spec fn carried_value(received: Seq<Option<u8>>) -> Option<JsonView> {
    match reading_of(received) {
        None => None,
        Some(response) => match last_line_span(response.text) {
            None => None,
            Some((start, end)) => if span_disclosed(response.withheld, start, end) {
                json_of_text(response.text.subrange(start, end))
            } else {
                None
            },
        },
    }
}

/// The two transcripts bear out that the prover owns the account
/// `username`: the request went to the settings of the prover's own
/// account, and the last line of the response is a structured value whose
/// `screen_name` is that name, whatever the case of its letters. Bytes
/// that are withheld bear out nothing.
pub open spec fn ownership_holds(
    username: Seq<char>,
    sent: Seq<Option<u8>>,
    received: Seq<Option<u8>>,
) -> bool {
    &&& reading_of(sent) matches Some(request)
    &&& has_disclosed_prefix(request.text, request.withheld, ownership_prefix())
    &&& carried_value(received) matches Some(value)
    &&& lookup(value, ownership_name_path()) matches Ok(field)
    &&& text_of(field) matches Some(name)
    &&& same_identity_spec(name, username)
}

/// The two transcripts bear out that the account `username` has `count`
/// followers: the request went to the GraphQL endpoint and asked for that
/// account by name, and the last line of the response is a structured
/// value whose user record carries that name, whatever the case of its
/// letters, and that number of followers. Bytes that are withheld bear
/// out nothing.
pub open spec fn follower_count_holds(
    username: Seq<char>,
    count: u64,
    sent: Seq<Option<u8>>,
    received: Seq<Option<u8>>,
) -> bool {
    &&& reading_of(sent) matches Some(request)
    &&& has_disclosed_prefix(request.text, request.withheld, followers_prefix())
    &&& has_disclosed_substring(request.text, request.withheld, followers_query(username))
    &&& carried_value(received) matches Some(value)
    &&& lookup(value, followers_name_path()) matches Ok(field)
    &&& text_of(field) matches Some(name)
    &&& same_identity_spec(name, username)
    &&& lookup(value, followers_count_path()) matches Ok(number)
    &&& count_of(number) == Some(count)
}

/// A response whose last line holds a withheld byte carries no value, and
/// no claim is borne out by it: whatever name is claimed, and whatever
/// the withheld bytes show as, no fact comes out.
pub proof fn lemma_withheld_line_confirms_nothing(
    claim: ClaimView,
    sent: Seq<Option<u8>>,
    received: Seq<Option<u8>>,
)
    requires
        reading_of(received) matches Some(response) && last_line_span(response.text) matches Some(
            (start, end),
        ) && !span_disclosed(response.withheld, start, end),
    ensures
        carried_value(received) is None,
        extraction(claim, sent, received) is Err,
{
    reveal_with_fuel(evaluation_of_first, 3);
}

/// Where the assertions of a pipeline on the received transcript all
/// pass, they hand out what the fact is made of: nothing for an ownership
/// claim, the number of followers for a follower count.
pub proof fn lemma_received_values(
    claim: ClaimView,
    reading: ReadingView,
    structured: Result<JsonView, RejectionView>,
)
    ensures
        evaluation(reading, structured, received_assertions_of(claim)) matches Ok(values) ==> (
        match claim.kind {
            PipelineKind::Ownership => values.len() == 0,
            PipelineKind::FollowerCount => values.len() == 1 && count_field(
                reading.text,
                structured,
                followers_count_path(),
            ) == Ok::<u64, RejectionView>(values[0]->Count_0) && values[0] is Count,
        }),
{
    reveal_with_fuel(evaluation_of_first, 3);
}

/// An ownership claim is confirmed exactly where the transcripts bear it
/// out, and the fact then names the claimed account.
pub proof fn lemma_ownership_confirmed(
    username: Seq<char>,
    sent: Seq<Option<u8>>,
    received: Seq<Option<u8>>,
)
    ensures
        ({
            let claim = ClaimView { kind: PipelineKind::Ownership, username };
            &&& extraction(claim, sent, received) is Ok <==> ownership_holds(
                username,
                sent,
                received,
            )
            &&& extraction(claim, sent, received) matches Ok(fact) ==> fact
                == (FactView::OwnershipConfirmed { username })
        }),
{
    reveal_with_fuel(evaluation_of_first, 3);
}

/// A follower count is established exactly where the transcripts bear out
/// some count, and the fact then carries the claimed account and that
/// count.
pub proof fn lemma_follower_count_established(
    username: Seq<char>,
    sent: Seq<Option<u8>>,
    received: Seq<Option<u8>>,
)
    ensures
        ({
            let claim = ClaimView { kind: PipelineKind::FollowerCount, username };
            &&& extraction(claim, sent, received) is Ok <==> exists|count: u64|
                follower_count_holds(username, count, sent, received)
            &&& forall|count: u64|
                follower_count_holds(username, count, sent, received) ==> extraction(
                    claim,
                    sent,
                    received,
                ) == Ok::<FactView, VerificationErrorView>(
                    FactView::FollowerCount { username, count },
                )
        }),
{
    reveal_with_fuel(evaluation_of_first, 3);
    let claim = ClaimView { kind: PipelineKind::FollowerCount, username };
    if extraction(claim, sent, received) is Ok {
        let response = reading_of(received)->Some_0;
        let values = evaluation(
            response,
            structured_of(response),
            received_assertions_of(claim),
        )->Ok_0;
        let count = values[0]->Count_0;
        assert(follower_count_holds(username, count, sent, received));
    }
}

/// Applies the pipeline of `claim` to the two transcripts of a session.
pub fn extract_fact(claim: &Claim, sent: &Transcript, received: &Transcript) -> (r: Result<
    Fact,
    VerificationError,
>)
    ensures
        extraction_view(r) == extraction(claim@, sent@, received@),
{
    let sent_list = claim.sent_assertions();
    match evaluate(sent, &sent_list) {
        Err(failure) => {
            return Err(VerificationError::from_failure(Direction::Sent, failure));
        },
        Ok(_) => {},
    }
    let received_list = claim.received_assertions();
    match evaluate(received, &received_list) {
        Err(failure) => Err(VerificationError::from_failure(Direction::Received, failure)),
        Ok(values) => {
            proof {
                let response = reading_of(received@)->Some_0;
                lemma_received_values(claim@, response, structured_of(response));
            }
            match claim.kind {
                PipelineKind::Ownership => Ok(
                    Fact::OwnershipConfirmed { username: claim.username.clone() },
                ),
                PipelineKind::FollowerCount => {
                    assert(values.deep_view()[0] == values[0]@);
                    match &values[0] {
                        ExtractedValue::Count(count) => Ok(
                            Fact::FollowerCount { username: claim.username.clone(), count: *count },
                        ),
                        ExtractedValue::Text(_) => vstd::pervasive::unreached(),
                    }
                },
            }
        },
    }
}

} // verus!
