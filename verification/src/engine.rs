//! Evaluating a list of assertions against a transcript, in order and up
//! to the first that fails.

use vstd::prelude::*;
use vstd::string::StringExecFns;
use crate::assertion::{
    check_disclosed_contains, check_disclosed_prefix, check_outcome, check_view, dotted_path,
    read_structured, structured_of, structured_view, Assertion, AssertionView, ExtractedValue,
    ExtractedView, FailureKind, Rejection, RejectionView,
};
use crate::json::{Json, JsonView};
use crate::reading::{read_cells, reading_of, Reading, ReadingView};
use crate::text::same_identity;
use crate::transcript::Transcript;

verus! {

/// The first assertion of a list that did not pass, and what it reported.
#[derive(Debug, PartialEq, Eq)]
pub struct AssertionFailure {
    /// The position of the assertion in its list.
    pub index: usize,
    pub rejection: Rejection,
}

pub struct AssertionFailureView {
    pub index: nat,
    pub rejection: RejectionView,
}

impl View for AssertionFailure {
    type V = AssertionFailureView;

    open spec fn view(&self) -> AssertionFailureView {
        AssertionFailureView { index: self.index as nat, rejection: self.rejection@ }
    }
}

/// What the first `count` of `assertions` make of a text: the values that
/// they hand out, in order, or the first failure among them.
pub open spec fn evaluation_of_first(
    reading: ReadingView,
    structured: Result<JsonView, RejectionView>,
    assertions: Seq<AssertionView>,
    count: int,
) -> Result<Seq<ExtractedView>, AssertionFailureView>
    decreases count,
{
    if count <= 0 {
        Ok(Seq::empty())
    } else {
        match evaluation_of_first(reading, structured, assertions, count - 1) {
            Err(failure) => Err(failure),
            Ok(values) => match check_outcome(reading, structured, assertions[count - 1]) {
                Err(rejection) => Err(
                    AssertionFailureView { index: (count - 1) as nat, rejection },
                ),
                Ok(None) => Ok(values),
                Ok(Some(value)) => Ok(values.push(value)),
            },
        }
    }
}

/// What `assertions` make of a text and of the structured value in its
/// last line.
pub open spec fn evaluation(
    reading: ReadingView,
    structured: Result<JsonView, RejectionView>,
    assertions: Seq<AssertionView>,
) -> Result<Seq<ExtractedView>, AssertionFailureView> {
    evaluation_of_first(reading, structured, assertions, assertions.len() as int)
}

/// The transcript's bytes are not text.
pub open spec fn not_text() -> RejectionView {
    RejectionView {
        kind: FailureKind::NotText,
        description: "The transcript is not text"@,
        observed: Seq::empty(),
    }
}

/// What `assertions` make of a transcript. The transcript is read as
/// text, with every withheld byte marked as such. No assertion passes on
/// bytes that are not text, and none on the strength of a withheld byte.
pub open spec fn transcript_evaluation(
    content: Seq<Option<u8>>,
    assertions: Seq<AssertionView>,
) -> Result<Seq<ExtractedView>, AssertionFailureView> {
    if assertions.len() == 0 {
        Ok(Seq::empty())
    } else {
        match reading_of(content) {
            None => Err(AssertionFailureView { index: 0, rejection: not_text() }),
            Some(reading) => evaluation(reading, structured_of(reading), assertions),
        }
    }
}

pub open spec fn evaluation_view(r: Result<Vec<ExtractedValue>, AssertionFailure>) -> Result<
    Seq<ExtractedView>,
    AssertionFailureView,
> {
    match r {
        Ok(values) => Ok(values.deep_view()),
        Err(failure) => Err(failure@),
    }
}

/// A failure among the first assertions is the failure of the whole list.
pub proof fn lemma_failure_stays(
    reading: ReadingView,
    structured: Result<JsonView, RejectionView>,
    assertions: Seq<AssertionView>,
    count: int,
    more: int,
)
    requires
        0 <= count <= more,
        evaluation_of_first(reading, structured, assertions, count) is Err,
    ensures
        evaluation_of_first(reading, structured, assertions, more) == evaluation_of_first(
            reading,
            structured,
            assertions,
            count,
        ),
    decreases more - count,
{
    if count < more {
        lemma_failure_stays(reading, structured, assertions, count, more - 1);
    }
}

/// Evaluation stops at the first assertion that fails. It succeeds exactly
/// where every assertion passes. Where it fails, the failure names the
/// first assertion that does not pass and carries what that one reported,
/// and every assertion before it passes.
pub proof fn lemma_first_failure(
    reading: ReadingView,
    structured: Result<JsonView, RejectionView>,
    assertions: Seq<AssertionView>,
)
    ensures
        evaluation(reading, structured, assertions) is Ok <==> forall|i: int|
            0 <= i < assertions.len() ==> (#[trigger] check_outcome(
                reading,
                structured,
                assertions[i],
            )) is Ok,
        evaluation(reading, structured, assertions) matches Err(failure) ==> {
            &&& failure.index < assertions.len()
            &&& check_outcome(reading, structured, assertions[failure.index as int]) == Err::<
                Option<ExtractedView>,
                RejectionView,
            >(failure.rejection)
            &&& forall|i: int|
                0 <= i < failure.index ==> (#[trigger] check_outcome(
                    reading,
                    structured,
                    assertions[i],
                )) is Ok
        },
{
    lemma_first_failure_among(reading, structured, assertions, assertions.len() as int);
}

/// The same of the first `count` assertions.
pub proof fn lemma_first_failure_among(
    reading: ReadingView,
    structured: Result<JsonView, RejectionView>,
    assertions: Seq<AssertionView>,
    count: int,
)
    requires
        0 <= count <= assertions.len(),
    ensures
        evaluation_of_first(reading, structured, assertions, count) is Ok <==> forall|i: int|
            0 <= i < count ==> (#[trigger] check_outcome(reading, structured, assertions[i])) is Ok,
        evaluation_of_first(reading, structured, assertions, count) matches Err(failure) ==> {
            &&& failure.index < count
            &&& check_outcome(reading, structured, assertions[failure.index as int]) == Err::<
                Option<ExtractedView>,
                RejectionView,
            >(failure.rejection)
            &&& forall|i: int|
                0 <= i < failure.index ==> (#[trigger] check_outcome(
                    reading,
                    structured,
                    assertions[i],
                )) is Ok
        },
    decreases count,
{
    if count > 0 {
        lemma_first_failure_among(reading, structured, assertions, count - 1);
    }
}

impl Assertion {
    /// Applies the assertion to a reading. `structured` is what the last
    /// line of the reading reads as; the assertions that look at a field
    /// go by it.
    pub fn check(&self, reading: &Reading, structured: &Result<Json, Rejection>) -> (r: Result<
        Option<ExtractedValue>,
        Rejection,
    >)
        ensures
            check_view(r) == check_outcome(reading@, structured_view(*structured), self@),
    {
        let text = reading.text.as_str();
        match self {
            Assertion::PrefixMatch(prefix) => match check_disclosed_prefix(
                reading,
                prefix.as_str(),
            ) {
                Ok(_) => Ok(None),
                Err(rejection) => Err(rejection),
            },
            Assertion::Contains(needle) => match check_disclosed_contains(
                reading,
                needle.as_str(),
            ) {
                Ok(_) => Ok(None),
                Err(rejection) => Err(rejection),
            },
            Assertion::FieldEquals { path, expected } => match read_text(text, structured, path) {
                Err(rejection) => Err(rejection),
                Ok(found) => if *found == *expected {
                    Ok(None)
                } else {
                    Err(mismatch_of(path, expected, found))
                },
            },
            Assertion::IdentityEquals { path, expected } => match read_text(
                text,
                structured,
                path,
            ) {
                Err(rejection) => Err(rejection),
                Ok(found) => if same_identity(found.as_str(), expected.as_str()) {
                    Ok(None)
                } else {
                    Err(mismatch_of(path, expected, found))
                },
            },
            Assertion::ExtractText { path } => match read_text(text, structured, path) {
                Err(rejection) => Err(rejection),
                Ok(found) => Ok(Some(ExtractedValue::Text(found.clone()))),
            },
            Assertion::ExtractCount { path } => match read_count(text, structured, path) {
                Err(rejection) => Err(rejection),
                Ok(count) => Ok(Some(ExtractedValue::Count(count))),
            },
        }
    }
}

pub open spec fn text_view(r: Result<&String, Rejection>) -> Result<Seq<char>, RejectionView> {
    match r {
        Ok(found) => Ok(found@),
        Err(rejection) => Err(rejection@),
    }
}

pub open spec fn count_view(r: Result<u64, Rejection>) -> Result<u64, RejectionView> {
    match r {
        Ok(count) => Ok(count),
        Err(rejection) => Err(rejection@),
    }
}

/// The field at `path`, or why it cannot be read: the structured value is
/// not there, or a key of the path names no member.
fn read_field<'a>(text: &str, structured: &'a Result<Json, Rejection>, path: &Vec<String>) -> (r:
    Result<&'a Json, Rejection>)
    ensures
        match r {
            Ok(field) => structured matches Ok(value) && crate::json::lookup(
                value@,
                path.deep_view(),
            ) == Ok::<JsonView, nat>(field@),
            Err(rejection) => match structured {
                Err(earlier) => rejection@ == earlier@,
                Ok(value) => crate::json::lookup(value@, path.deep_view()) matches Err(step)
                    && rejection@ == crate::assertion::missing_field(
                    text@,
                    path.deep_view(),
                    step as int,
                ),
            },
        },
{
    match structured {
        Err(earlier) => Err(earlier.duplicate()),
        Ok(value) => match value.lookup(path) {
            Ok(field) => Ok(field),
            Err(step) => {
                let mut description = String::from_str("Field '");
                let keys = dotted_path(path, step + 1);
                description.append(keys.as_str());
                description.append("' was not found");
                Err(
                    Rejection {
                        kind: FailureKind::MissingField,
                        description,
                        observed: String::from_str(text),
                    },
                )
            },
        },
    }
}

/// The text field at `path`.
pub fn read_text<'a>(text: &str, structured: &'a Result<Json, Rejection>, path: &Vec<String>) -> (r:
    Result<&'a String, Rejection>)
    ensures
        text_view(r) == crate::assertion::text_field(
            text@,
            structured_view(*structured),
            path.deep_view(),
        ),
{
    match read_field(text, structured, path) {
        Err(rejection) => Err(rejection),
        Ok(field) => match field.as_text() {
            Some(found) => Ok(found),
            None => {
                let mut description = String::from_str("Field '");
                let keys = dotted_path(path, path.len());
                proof {
                    assert(path.deep_view().take(path.len() as int) =~= path.deep_view());
                }
                description.append(keys.as_str());
                description.append("' is not a text");
                Err(
                    Rejection {
                        kind: FailureKind::WrongType,
                        description,
                        observed: String::from_str(text),
                    },
                )
            },
        },
    }
}

/// The integer field at `path`.
pub fn read_count(text: &str, structured: &Result<Json, Rejection>, path: &Vec<String>) -> (r:
    Result<u64, Rejection>)
    ensures
        count_view(r) == crate::assertion::count_field(
            text@,
            structured_view(*structured),
            path.deep_view(),
        ),
{
    match read_field(text, structured, path) {
        Err(rejection) => Err(rejection),
        Ok(field) => match field.as_count() {
            Some(count) => Ok(count),
            None => {
                let mut description = String::from_str("Field '");
                let keys = dotted_path(path, path.len());
                proof {
                    assert(path.deep_view().take(path.len() as int) =~= path.deep_view());
                }
                description.append(keys.as_str());
                description.append("' is not a non-negative integer");
                Err(
                    Rejection {
                        kind: FailureKind::WrongType,
                        description,
                        observed: String::from_str(text),
                    },
                )
            },
        },
    }
}

/// Says that the field at `path` held `found`, not `expected`.
fn mismatch_of(path: &Vec<String>, expected: &String, found: &String) -> (r: Rejection)
    ensures
        r@ == crate::assertion::mismatch(path.deep_view(), expected@, found@),
{
    let mut description = String::from_str("Field '");
    let keys = dotted_path(path, path.len());
    proof {
        assert(path.deep_view().take(path.len() as int) =~= path.deep_view());
    }
    description.append(keys.as_str());
    description.append("' is not '");
    description.append(expected.as_str());
    description.append("'");
    Rejection { kind: FailureKind::Mismatch, description, observed: found.clone() }
}

/// Evaluates `assertions` on a reading, in order, and stops at the first
/// that fails. `structured` is what the last line of the reading reads
/// as.
pub fn evaluate_text(
    reading: &Reading,
    structured: &Result<Json, Rejection>,
    assertions: &Vec<Assertion>,
) -> (r: Result<Vec<ExtractedValue>, AssertionFailure>)
    ensures
        evaluation_view(r) == evaluation(
            reading@,
            structured_view(*structured),
            assertions.deep_view(),
        ),
{
    let ghost list = assertions.deep_view();
    let ghost parsed = structured_view(*structured);
    let mut values: Vec<ExtractedValue> = Vec::new();
    let mut k: usize = 0;
    assert(values.deep_view() =~= Seq::<ExtractedView>::empty());
    while k < assertions.len()
        invariant
            list == assertions.deep_view(),
            list.len() == assertions.len(),
            parsed == structured_view(*structured),
            k <= assertions.len(),
            evaluation_of_first(reading@, parsed, list, k as int) == Ok::<
                Seq<ExtractedView>,
                AssertionFailureView,
            >(values.deep_view()),
        decreases assertions.len() - k,
    {
        let ghost before = values.deep_view();
        assert(list[k as int] == assertions[k as int]@);
        match assertions[k].check(reading, structured) {
            Err(rejection) => {
                proof {
                    lemma_failure_stays(reading@, parsed, list, k + 1, list.len() as int);
                }
                return Err(AssertionFailure { index: k, rejection });
            },
            Ok(None) => {},
            Ok(Some(value)) => {
                values.push(value);
                assert(values.deep_view() =~= before.push(value@));
            },
        }
        k = k + 1;
    }
    Ok(values)
}

/// Evaluates `assertions` on a transcript, in order, and stops at the
/// first that fails. A withheld byte bears out no assertion.
pub fn evaluate(transcript: &Transcript, assertions: &Vec<Assertion>) -> (r: Result<
    Vec<ExtractedValue>,
    AssertionFailure,
>)
    ensures
        evaluation_view(r) == transcript_evaluation(transcript@, assertions.deep_view()),
{
    if assertions.len() == 0 {
        let values: Vec<ExtractedValue> = Vec::new();
        assert(values.deep_view() =~= Seq::<ExtractedView>::empty());
        return Ok(values);
    }
    let cells = transcript.cells();
    match read_cells(&cells) {
        None => Err(
            AssertionFailure {
                index: 0,
                rejection: Rejection {
                    kind: FailureKind::NotText,
                    description: String::from_str("The transcript is not text"),
                    observed: String::new(),
                },
            },
        ),
        Some(reading) => {
            let structured = read_structured(&reading);
            evaluate_text(&reading, &structured, assertions)
        },
    }
}

} // verus!
