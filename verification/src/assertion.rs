//! Declarative checks over the text of a transcript, and what they report
//! when they fail.

use vstd::prelude::*;
use vstd::string::StringExecFns;
use crate::json::{count_of, json_of_text, lookup, text_of, Json, JsonView};
use crate::reading::{plain, Reading, ReadingView};
use crate::text::{
    chars_of, disclosed_at, disclosed_match, find, find_disclosed, has_disclosed_prefix,
    has_disclosed_substring, has_prefix, has_substring, last_line_bounds, last_line_span,
    leading_whitespace, lemma_leading_whitespace_bound, matches_at, same_identity_spec,
    span_disclosed, span_is_disclosed, starts_with_disclosed, starts_with_trimmed, trim_start,
};

verus! {

/// Why a check did not pass.
#[derive(Clone, Copy, Debug, PartialEq, Eq, Structural)]
pub enum FailureKind {
    /// The transcript's bytes are not text.
    NotText,
    /// The text has no line to read a structured value from.
    NoLines,
    /// The last line is not a structured value.
    Malformed,
    /// A key of the path names no member.
    MissingField,
    /// The field is there but is not of the kind that the check reads.
    WrongType,
    /// The text does not begin with the expected prefix.
    PrefixNotFound,
    /// The text does not contain the expected substring.
    SubstringNotFound,
    /// The field does not hold the expected value.
    Mismatch,
    /// What the check would have to read is withheld.
    Withheld,
}

/// What one check reports when it does not pass.
#[derive(Debug, PartialEq, Eq)]
pub struct Rejection {
    pub kind: FailureKind,
    /// What the check asked for.
    pub description: String,
    /// What it found instead.
    pub observed: String,
}

pub struct RejectionView {
    pub kind: FailureKind,
    pub description: Seq<char>,
    pub observed: Seq<char>,
}

impl View for Rejection {
    type V = RejectionView;

    open spec fn view(&self) -> RejectionView {
        RejectionView { kind: self.kind, description: self.description@, observed: self.observed@ }
    }
}

/// A check on the text of a transcript.
#[derive(Debug, PartialEq, Eq)]
pub enum Assertion {
    /// The text, after its leading whitespace, begins with this.
    PrefixMatch(String),
    /// The text contains this.
    Contains(String),
    /// The field at `path` of the structured value in the last line is the
    /// text `expected`, character for character.
    FieldEquals { path: Vec<String>, expected: String },
    /// The field at `path` is a text that names the identity `expected`,
    /// whatever the case of its letters.
    IdentityEquals { path: Vec<String>, expected: String },
    /// The field at `path` is a text; the check hands it out.
    ExtractText { path: Vec<String> },
    /// The field at `path` is an integer from 0 to 2^64 - 1; the check
    /// hands it out.
    ExtractCount { path: Vec<String> },
}

pub enum AssertionView {
    PrefixMatch(Seq<char>),
    Contains(Seq<char>),
    FieldEquals { path: Seq<Seq<char>>, expected: Seq<char> },
    IdentityEquals { path: Seq<Seq<char>>, expected: Seq<char> },
    ExtractText { path: Seq<Seq<char>> },
    ExtractCount { path: Seq<Seq<char>> },
}

impl View for Assertion {
    type V = AssertionView;

    open spec fn view(&self) -> AssertionView {
        match self {
            Assertion::PrefixMatch(prefix) => AssertionView::PrefixMatch(prefix@),
            Assertion::Contains(needle) => AssertionView::Contains(needle@),
            Assertion::FieldEquals { path, expected } => AssertionView::FieldEquals {
                path: path.deep_view(),
                expected: expected@,
            },
            Assertion::IdentityEquals { path, expected } => AssertionView::IdentityEquals {
                path: path.deep_view(),
                expected: expected@,
            },
            Assertion::ExtractText { path } => AssertionView::ExtractText {
                path: path.deep_view(),
            },
            Assertion::ExtractCount { path } => AssertionView::ExtractCount {
                path: path.deep_view(),
            },
        }
    }
}

impl DeepView for Assertion {
    type V = AssertionView;

    open spec fn deep_view(&self) -> AssertionView {
        self@
    }
}

/// A value that a check handed out.
#[derive(Debug, PartialEq, Eq)]
pub enum ExtractedValue {
    Text(String),
    Count(u64),
}

pub enum ExtractedView {
    Text(Seq<char>),
    Count(u64),
}

impl View for ExtractedValue {
    type V = ExtractedView;

    open spec fn view(&self) -> ExtractedView {
        match self {
            ExtractedValue::Text(s) => ExtractedView::Text(s@),
            ExtractedValue::Count(n) => ExtractedView::Count(*n),
        }
    }
}

impl DeepView for ExtractedValue {
    type V = ExtractedView;

    open spec fn deep_view(&self) -> ExtractedView {
        self@
    }
}

/// The keys of `path`, with a dot between each two.
pub open spec fn dotted(path: Seq<Seq<char>>) -> Seq<char>
    decreases path.len(),
{
    if path.len() == 0 {
        Seq::empty()
    } else if path.len() == 1 {
        path[0]
    } else {
        dotted(path.drop_last()) + "."@ + path.last()
    }
}

pub open spec fn prefix_not_found(text: Seq<char>, prefix: Seq<char>) -> RejectionView {
    RejectionView {
        kind: FailureKind::PrefixNotFound,
        description: "The URL prefix '"@ + prefix + "' was not found in the input header"@,
        observed: text,
    }
}

pub open spec fn substring_not_found(text: Seq<char>, needle: Seq<char>) -> RejectionView {
    RejectionView {
        kind: FailureKind::SubstringNotFound,
        description: "The URL substring '"@ + needle + "' was not found in the input header"@,
        observed: text,
    }
}

pub open spec fn no_lines(text: Seq<char>) -> RejectionView {
    RejectionView {
        kind: FailureKind::NoLines,
        description: "No lines found in input"@,
        observed: text,
    }
}

pub open spec fn malformed(text: Seq<char>) -> RejectionView {
    RejectionView {
        kind: FailureKind::Malformed,
        description: "The last line is not a structured value"@,
        observed: text,
    }
}

/// The key at position `step` of `path` named no member.
pub open spec fn missing_field(text: Seq<char>, path: Seq<Seq<char>>, step: int) -> RejectionView {
    RejectionView {
        kind: FailureKind::MissingField,
        description: "Field '"@ + dotted(path.take(step + 1)) + "' was not found"@,
        observed: text,
    }
}

pub open spec fn not_a_text(text: Seq<char>, path: Seq<Seq<char>>) -> RejectionView {
    RejectionView {
        kind: FailureKind::WrongType,
        description: "Field '"@ + dotted(path) + "' is not a text"@,
        observed: text,
    }
}

pub open spec fn not_a_count(text: Seq<char>, path: Seq<Seq<char>>) -> RejectionView {
    RejectionView {
        kind: FailureKind::WrongType,
        description: "Field '"@ + dotted(path) + "' is not a non-negative integer"@,
        observed: text,
    }
}

/// The field at `path` held `found`, not `expected`.
pub open spec fn mismatch(path: Seq<Seq<char>>, expected: Seq<char>, found: Seq<char>) -> RejectionView {
    RejectionView {
        kind: FailureKind::Mismatch,
        description: "Field '"@ + dotted(path) + "' is not '"@ + expected + "'"@,
        observed: found,
    }
}

/// What a rejection says in one line: what was asked for, then what was
/// found.
pub open spec fn message_of(rejection: RejectionView) -> Seq<char> {
    rejection.description + ": '"@ + rejection.observed + "'"@
}

/// What `check_prefix` returns.
pub open spec fn prefix_outcome(text: Seq<char>, prefix: Seq<char>) -> Result<(), RejectionView> {
    if has_prefix(text, prefix) {
        Ok(())
    } else {
        Err(prefix_not_found(text, prefix))
    }
}

/// What `check_contains` returns.
pub open spec fn contains_outcome(text: Seq<char>, needle: Seq<char>) -> Result<(), RejectionView> {
    if has_substring(text, needle) {
        Ok(())
    } else {
        Err(substring_not_found(text, needle))
    }
}

/// The prefix stands in the text, but on bytes that are withheld.
pub open spec fn withheld_prefix(text: Seq<char>, prefix: Seq<char>) -> RejectionView {
    RejectionView {
        kind: FailureKind::Withheld,
        description: "The URL prefix '"@ + prefix + "' stands on withheld bytes"@,
        observed: text,
    }
}

/// The substring stands in the text, but nowhere on disclosed bytes alone.
pub open spec fn withheld_substring(text: Seq<char>, needle: Seq<char>) -> RejectionView {
    RejectionView {
        kind: FailureKind::Withheld,
        description: "The URL substring '"@ + needle + "' stands on withheld bytes"@,
        observed: text,
    }
}

/// Something of the last line is withheld.
pub open spec fn withheld_line(text: Seq<char>) -> RejectionView {
    RejectionView {
        kind: FailureKind::Withheld,
        description: "The last line holds withheld bytes"@,
        observed: text,
    }
}

/// What a prefix check makes of a reading. A prefix that the text shows
/// only with the help of withheld bytes is not there.
pub open spec fn disclosed_prefix_outcome(reading: ReadingView, prefix: Seq<char>) -> Result<
    (),
    RejectionView,
> {
    if has_disclosed_prefix(reading.text, reading.withheld, prefix) {
        Ok(())
    } else if has_prefix(reading.text, prefix) {
        Err(withheld_prefix(reading.text, prefix))
    } else {
        Err(prefix_not_found(reading.text, prefix))
    }
}

/// What a substring check makes of a reading. An occurrence that touches
/// a withheld byte is none.
pub open spec fn disclosed_contains_outcome(reading: ReadingView, needle: Seq<char>) -> Result<
    (),
    RejectionView,
> {
    if has_disclosed_substring(reading.text, reading.withheld, needle) {
        Ok(())
    } else if has_substring(reading.text, needle) {
        Err(withheld_substring(reading.text, needle))
    } else {
        Err(substring_not_found(reading.text, needle))
    }
}

/// The structured value in the last line of a reading. There is none
/// where anything of the last line is withheld: what a value was read
/// from must be disclosed.
pub open spec fn structured_of(reading: ReadingView) -> Result<JsonView, RejectionView> {
    match last_line_span(reading.text) {
        None => Err(no_lines(reading.text)),
        Some((start, end)) => if !span_disclosed(reading.withheld, start, end) {
            Err(withheld_line(reading.text))
        } else {
            match json_of_text(reading.text.subrange(start, end)) {
                None => Err(malformed(reading.text)),
                Some(value) => Ok(value),
            }
        },
    }
}

/// The text field at `path` of `structured`.
pub open spec fn text_field(
    text: Seq<char>,
    structured: Result<JsonView, RejectionView>,
    path: Seq<Seq<char>>,
) -> Result<Seq<char>, RejectionView> {
    match structured {
        Err(rejection) => Err(rejection),
        Ok(value) => match lookup(value, path) {
            Err(step) => Err(missing_field(text, path, step as int)),
            Ok(field) => match text_of(field) {
                None => Err(not_a_text(text, path)),
                Some(found) => Ok(found),
            },
        },
    }
}

/// The integer field at `path` of `structured`.
pub open spec fn count_field(
    text: Seq<char>,
    structured: Result<JsonView, RejectionView>,
    path: Seq<Seq<char>>,
) -> Result<u64, RejectionView> {
    match structured {
        Err(rejection) => Err(rejection),
        Ok(value) => match lookup(value, path) {
            Err(step) => Err(missing_field(text, path, step as int)),
            Ok(field) => match count_of(field) {
                None => Err(not_a_count(text, path)),
                Some(count) => Ok(count),
            },
        },
    }
}

/// What one assertion makes of a reading and of the structured value in
/// its last line: it passes, with or without a value to hand out, or it
/// reports why not. No assertion passes on the strength of a withheld
/// byte.
pub open spec fn check_outcome(
    reading: ReadingView,
    structured: Result<JsonView, RejectionView>,
    assertion: AssertionView,
) -> Result<Option<ExtractedView>, RejectionView> {
    let text = reading.text;
    match assertion {
        AssertionView::PrefixMatch(prefix) => match disclosed_prefix_outcome(reading, prefix) {
            Ok(_) => Ok(None),
            Err(rejection) => Err(rejection),
        },
        AssertionView::Contains(needle) => match disclosed_contains_outcome(reading, needle) {
            Ok(_) => Ok(None),
            Err(rejection) => Err(rejection),
        },
        AssertionView::FieldEquals { path, expected } => match text_field(text, structured, path) {
            Err(rejection) => Err(rejection),
            Ok(found) => if found == expected {
                Ok(None)
            } else {
                Err(mismatch(path, expected, found))
            },
        },
        AssertionView::IdentityEquals { path, expected } => match text_field(
            text,
            structured,
            path,
        ) {
            Err(rejection) => Err(rejection),
            Ok(found) => if same_identity_spec(found, expected) {
                Ok(None)
            } else {
                Err(mismatch(path, expected, found))
            },
        },
        AssertionView::ExtractText { path } => match text_field(text, structured, path) {
            Err(rejection) => Err(rejection),
            Ok(found) => Ok(Some(ExtractedView::Text(found))),
        },
        AssertionView::ExtractCount { path } => match count_field(text, structured, path) {
            Err(rejection) => Err(rejection),
            Ok(count) => Ok(Some(ExtractedView::Count(count))),
        },
    }
}

pub open spec fn unit_view(r: Result<(), Rejection>) -> Result<(), RejectionView> {
    match r {
        Ok(_) => Ok(()),
        Err(rejection) => Err(rejection@),
    }
}

pub open spec fn structured_view(r: Result<Json, Rejection>) -> Result<JsonView, RejectionView> {
    match r {
        Ok(value) => Ok(value@),
        Err(rejection) => Err(rejection@),
    }
}

pub open spec fn check_view(r: Result<Option<ExtractedValue>, Rejection>) -> Result<
    Option<ExtractedView>,
    RejectionView,
> {
    match r {
        Ok(None) => Ok(None),
        Ok(Some(value)) => Ok(Some(value@)),
        Err(rejection) => Err(rejection@),
    }
}

/// On a text of which nothing is withheld, the checks that mind withheld
/// bytes say what the plain checks say.
pub proof fn lemma_plain_text_checks(text: Seq<char>, pattern: Seq<char>)
    ensures
        disclosed_prefix_outcome(plain(text), pattern) == prefix_outcome(text, pattern),
        disclosed_contains_outcome(plain(text), pattern) == contains_outcome(text, pattern),
{
    lemma_leading_whitespace_bound(text);
    let marks = plain(text).withheld;
    if has_prefix(text, pattern) {
        let skip = leading_whitespace(text) as int;
        assert(pattern.len() <= trim_start(text).len());
        assert forall|i: int| skip <= i < skip + pattern.len() implies #[trigger] disclosed_at(
            marks,
            i,
        ) by {}
    }
    if has_substring(text, pattern) {
        let at = choose|at: int| matches_at(text, at, pattern);
        assert forall|i: int| at <= i < at + pattern.len() implies #[trigger] disclosed_at(
            marks,
            i,
        ) by {}
        assert(disclosed_match(text, marks, at, pattern));
    }
    if has_disclosed_substring(text, marks, pattern) {
        let at = choose|at: int| disclosed_match(text, marks, at, pattern);
        assert(matches_at(text, at, pattern));
    }
}

impl Rejection {
    /// The rejection in one line.
    pub fn message(&self) -> (m: String)
        ensures
            m@ == message_of(self@),
    {
        let mut m = self.description.clone();
        m.append(": '");
        m.append(self.observed.as_str());
        m.append("'");
        m
    }

    /// A rejection that says the same.
    pub fn duplicate(&self) -> (r: Rejection)
        ensures
            r@ == self@,
    {
        Rejection {
            kind: self.kind,
            description: self.description.clone(),
            observed: self.observed.clone(),
        }
    }
}

/// Joins the keys of `path` with dots.
pub fn dotted_path(path: &Vec<String>, count: usize) -> (s: String)
    requires
        count <= path.len(),
    ensures
        s@ == dotted(path.deep_view().take(count as int)),
{
    let ghost keys = path.deep_view();
    let mut s = String::new();
    let mut k: usize = 0;
    proof {
        assert(keys.take(0) =~= Seq::<Seq<char>>::empty());
    }
    while k < count
        invariant
            keys == path.deep_view(),
            keys.len() == path.len(),
            k <= count <= path.len(),
            s@ == dotted(keys.take(k as int)),
        decreases count - k,
    {
        proof {
            let next = keys.take(k + 1);
            assert(next.drop_last() =~= keys.take(k as int));
            assert(next.last() == path[k as int]@);
            if k == 0 {
                assert(Seq::<char>::empty() + path[k as int]@ =~= path[k as int]@);
            }
        }
        if k > 0 {
            s.append(".");
        }
        s.append(path[k].as_str());
        k = k + 1;
    }
    s
}

/// Passes where `input`, after its leading whitespace, begins with
/// `prefix`.
pub fn check_prefix(input: &str, prefix: &str) -> (r: Result<(), Rejection>)
    ensures
        unit_view(r) == prefix_outcome(input@, prefix@),
{
    let text = chars_of(input);
    let pattern = chars_of(prefix);
    if starts_with_trimmed(&text, &pattern) {
        Ok(())
    } else {
        let mut description = String::from_str("The URL prefix '");
        description.append(prefix);
        description.append("' was not found in the input header");
        Err(
            Rejection {
                kind: FailureKind::PrefixNotFound,
                description,
                observed: String::from_str(input),
            },
        )
    }
}

/// Passes where `input` contains `needle`.
pub fn check_contains(input: &str, needle: &str) -> (r: Result<(), Rejection>)
    ensures
        unit_view(r) == contains_outcome(input@, needle@),
{
    let text = chars_of(input);
    let pattern = chars_of(needle);
    if find(&text, &pattern).is_some() {
        Ok(())
    } else {
        let mut description = String::from_str("The URL substring '");
        description.append(needle);
        description.append("' was not found in the input header");
        Err(
            Rejection {
                kind: FailureKind::SubstringNotFound,
                description,
                observed: String::from_str(input),
            },
        )
    }
}

/// Passes where the reading, after its leading whitespace, begins with
/// `prefix` on disclosed bytes.
pub fn check_disclosed_prefix(reading: &Reading, prefix: &str) -> (r: Result<(), Rejection>)
    ensures
        unit_view(r) == disclosed_prefix_outcome(reading@, prefix@),
{
    let text = chars_of(reading.text.as_str());
    let pattern = chars_of(prefix);
    if starts_with_disclosed(&text, &reading.withheld, &pattern) {
        Ok(())
    } else if starts_with_trimmed(&text, &pattern) {
        let mut description = String::from_str("The URL prefix '");
        description.append(prefix);
        description.append("' stands on withheld bytes");
        Err(Rejection { kind: FailureKind::Withheld, description, observed: reading.text.clone() })
    } else {
        let mut description = String::from_str("The URL prefix '");
        description.append(prefix);
        description.append("' was not found in the input header");
        Err(
            Rejection {
                kind: FailureKind::PrefixNotFound,
                description,
                observed: reading.text.clone(),
            },
        )
    }
}

/// Passes where the reading contains `needle` on disclosed bytes.
pub fn check_disclosed_contains(reading: &Reading, needle: &str) -> (r: Result<(), Rejection>)
    ensures
        unit_view(r) == disclosed_contains_outcome(reading@, needle@),
{
    let text = chars_of(reading.text.as_str());
    let pattern = chars_of(needle);
    if find_disclosed(&text, &reading.withheld, &pattern).is_some() {
        Ok(())
    } else if find(&text, &pattern).is_some() {
        let mut description = String::from_str("The URL substring '");
        description.append(needle);
        description.append("' stands on withheld bytes");
        Err(Rejection { kind: FailureKind::Withheld, description, observed: reading.text.clone() })
    } else {
        let mut description = String::from_str("The URL substring '");
        description.append(needle);
        description.append("' was not found in the input header");
        Err(
            Rejection {
                kind: FailureKind::SubstringNotFound,
                description,
                observed: reading.text.clone(),
            },
        )
    }
}

/// Reads the last line of a reading as a structured value.
pub fn read_structured(reading: &Reading) -> (r: Result<Json, Rejection>)
    ensures
        structured_view(r) == structured_of(reading@),
{
    let text = chars_of(reading.text.as_str());
    match last_line_bounds(&text) {
        None => Err(
            Rejection {
                kind: FailureKind::NoLines,
                description: String::from_str("No lines found in input"),
                observed: reading.text.clone(),
            },
        ),
        Some((start, end)) => {
            if !span_is_disclosed(&reading.withheld, start, end) {
                return Err(
                    Rejection {
                        kind: FailureKind::Withheld,
                        description: String::from_str("The last line holds withheld bytes"),
                        observed: reading.text.clone(),
                    },
                );
            }
            let line = reading.text.as_str().substring_char(start, end);
            match Json::parse(line) {
                Some(value) => Ok(value),
                None => Err(
                    Rejection {
                        kind: FailureKind::Malformed,
                        description: String::from_str("The last line is not a structured value"),
                        observed: reading.text.clone(),
                    },
                ),
            }
        },
    }
}

/// Reads the last line of `input`, a text of which nothing is withheld,
/// as a structured value.
pub fn deserialize_json(input: &str) -> (r: Result<Json, Rejection>)
    ensures
        structured_view(r) == structured_of(plain(input@)),
{
    let reading = Reading::disclosed(input);
    read_structured(&reading)
}

} // verus!
