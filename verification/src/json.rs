//! Structured values: the JSON data model, reading one from text, and
//! finding a field by its path.

use vstd::prelude::*;
use serde_json::Value;

verus! {

/// A JSON number. An integer is held by its value, any other number by its
/// decimal text.
#[derive(Debug, PartialEq, Eq)]
pub enum JsonNumber {
    /// An integer from 0 to 2^64 - 1.
    Unsigned(u64),
    /// An integer below 0.
    Negative(i64),
    /// A number with a fraction or an exponent, or outside both ranges.
    Decimal(String),
}

/// A structured value.
#[derive(Debug, PartialEq, Eq)]
pub enum Json {
    Null,
    Bool(bool),
    Number(JsonNumber),
    Text(String),
    Array(Vec<Json>),
    /// The members of an object, each a key and its value.
    Object(Vec<(String, Json)>),
}

/// What a `JsonNumber` stands for.
pub enum JsonNumberView {
    Unsigned(u64),
    Negative(i64),
    Decimal(Seq<char>),
}

/// What a `Json` stands for.
pub enum JsonView {
    Null,
    Bool(bool),
    Number(JsonNumberView),
    Text(Seq<char>),
    Array(Seq<JsonView>),
    Object(Seq<(Seq<char>, JsonView)>),
}

impl View for JsonNumber {
    type V = JsonNumberView;

    open spec fn view(&self) -> JsonNumberView {
        match self {
            JsonNumber::Unsigned(n) => JsonNumberView::Unsigned(*n),
            JsonNumber::Negative(n) => JsonNumberView::Negative(*n),
            JsonNumber::Decimal(text) => JsonNumberView::Decimal(text@),
        }
    }
}

/// What `json` stands for.
pub open spec fn json_view(json: Json) -> JsonView
    decreases json,
{
    match json {
        Json::Null => JsonView::Null,
        Json::Bool(b) => JsonView::Bool(b),
        Json::Number(n) => JsonView::Number(n@),
        Json::Text(s) => JsonView::Text(s@),
        Json::Array(items) => JsonView::Array(
            Seq::new(
                items.len() as nat,
                |i: int|
                    if 0 <= i < items.len() {
                        json_view(items[i])
                    } else {
                        JsonView::Null
                    },
            ),
        ),
        Json::Object(members) => JsonView::Object(
            Seq::new(
                members.len() as nat,
                |i: int|
                    if 0 <= i < members.len() {
                        (members[i].0@, json_view(members[i].1))
                    } else {
                        (Seq::empty(), JsonView::Null)
                    },
            ),
        ),
    }
}

impl View for Json {
    type V = JsonView;

    open spec fn view(&self) -> JsonView {
        json_view(*self)
    }
}

/// The value of the first of `members` whose key is `key`.
pub open spec fn find_member(members: Seq<(Seq<char>, JsonView)>, key: Seq<char>) -> Option<
    JsonView,
>
    decreases members.len(),
{
    if members.len() == 0 {
        None
    } else if members[0].0 == key {
        Some(members[0].1)
    } else {
        find_member(members.drop_first(), key)
    }
}

/// The member `key` of `value`: there is one where `value` is an object
/// that has the key.
pub open spec fn member(value: JsonView, key: Seq<char>) -> Option<JsonView> {
    match value {
        JsonView::Object(members) => find_member(members, key),
        _ => None,
    }
}

/// The value reached from `value` by taking the member named by each key
/// of `path` in turn, or the position in `path` of the first key that
/// names no member.
pub open spec fn lookup(value: JsonView, path: Seq<Seq<char>>) -> Result<JsonView, nat>
    decreases path.len(),
{
    if path.len() == 0 {
        Ok(value)
    } else {
        match member(value, path[0]) {
            None => Err(0),
            Some(inner) => match lookup(inner, path.drop_first()) {
                Ok(found) => Ok(found),
                Err(step) => Err(step + 1),
            },
        }
    }
}

/// The text of `value`, where it is one.
pub open spec fn text_of(value: JsonView) -> Option<Seq<char>> {
    match value {
        JsonView::Text(s) => Some(s),
        _ => None,
    }
}

/// `value` as an integer from 0 to 2^64 - 1, where it is one.
pub open spec fn count_of(value: JsonView) -> Option<u64> {
    match value {
        JsonView::Number(JsonNumberView::Unsigned(n)) => Some(n),
        _ => None,
    }
}

/// A lookup along `path` is a lookup along its first keys, followed by a
/// lookup along the rest from where that one arrived.
pub proof fn lemma_lookup_split(value: JsonView, path: Seq<Seq<char>>, k: int)
    requires
        0 <= k <= path.len(),
    ensures
        lookup(value, path) == match lookup(value, path.take(k)) {
            Err(step) => Err::<JsonView, nat>(step),
            Ok(inner) => match lookup(inner, path.skip(k)) {
                Ok(found) => Ok(found),
                Err(step) => Err((k + step) as nat),
            },
        },
    decreases path.len(),
{
    if k == 0 {
        assert(path.take(0) =~= Seq::<Seq<char>>::empty());
        assert(path.skip(0) =~= path);
    } else {
        let rest = path.drop_first();
        assert(path.take(k)[0] == path[0]);
        assert(path.take(k).drop_first() =~= rest.take(k - 1));
        assert(path.skip(k) =~= rest.skip(k - 1));
        match member(value, path[0]) {
            None => {},
            Some(inner) => {
                lemma_lookup_split(inner, rest, k - 1);
            },
        }
    }
}

/// What `serde_json::from_str` reads from a text: the value that the text
/// denotes, or `None` where the text is not one JSON value.
pub uninterp spec fn json_of_text(text: Seq<char>) -> Option<JsonView>;

/// What a `serde_json::Value` holds.
pub uninterp spec fn value_model(value: Value) -> JsonView;

#[verifier::external_type_specification]
#[verifier::external_body]
pub struct ExValue(Value);

#[verifier::external_type_specification]
#[verifier::external_body]
pub struct ExError(serde_json::Error);

/// Calls `serde_json::from_str` for a `serde_json::Value`. The contract
/// names what the call reads and claims that this depends on the text
/// alone.
#[verifier::external_body]
fn value_from_str(text: &str) -> (r: Result<Value, serde_json::Error>)
    ensures
        r is Ok <==> json_of_text(text@) is Some,
        r matches Ok(value) ==> json_of_text(text@) == Some(value_model(value)),
{
    serde_json::from_str::<Value>(text)
}

/// Copies a `serde_json::Value` into a `Json`, variant by variant. A number
/// is told apart by `Number::as_u64` and `Number::as_i64`; one that is
/// neither is kept as the text that `Number::to_string` gives. The members
/// of an object come in the order in which its map hands them out.
#[verifier::external_body]
fn json_from_value(value: &Value) -> (json: Json)
    ensures
        json@ == value_model(*value),
{
    match value {
        Value::Null => Json::Null,
        Value::Bool(b) => Json::Bool(*b),
        Value::Number(n) => Json::Number(match (n.as_u64(), n.as_i64()) {
            (Some(u), _) => JsonNumber::Unsigned(u),
            (_, Some(i)) => JsonNumber::Negative(i),
            _ => JsonNumber::Decimal(n.to_string()),
        }),
        Value::String(s) => Json::Text(s.clone()),
        Value::Array(items) => Json::Array(items.iter().map(json_from_value).collect()),
        Value::Object(map) => {
            Json::Object(map.iter().map(|(k, v)| (k.clone(), json_from_value(v))).collect())
        },
    }
}

/// The view of an object has one member for each of the object's, in order.
pub proof fn lemma_object_view(members: Vec<(String, Json)>)
    ensures
        Json::Object(members)@ is Object,
        Json::Object(members)@->Object_0.len() == members.len(),
        forall|j: int|
            0 <= j < members.len() ==> #[trigger] Json::Object(members)@->Object_0[j] == (
                members[j].0@,
                members[j].1@,
            ),
{
}

impl Json {
    /// Reads one structured value from `text`, or `None` where `text` is
    /// not one.
    pub fn parse(text: &str) -> (r: Option<Json>)
        ensures
            r is Some <==> json_of_text(text@) is Some,
            r matches Some(json) ==> json_of_text(text@) == Some(json@),
    {
        match value_from_str(text) {
            Ok(value) => Some(json_from_value(&value)),
            Err(_) => None,
        }
    }

    /// The member `key`, where `self` is an object that has it.
    pub fn get(&self, key: &String) -> (r: Option<&Json>)
        ensures
            r is Some <==> member(self@, key@) is Some,
            r matches Some(found) ==> member(self@, key@) == Some(found@),
    {
        match self {
            Json::Object(members) => {
                let ghost all = self@->Object_0;
                proof {
                    lemma_object_view(*members);
                    assert(all.skip(0) =~= all);
                }
                let mut i: usize = 0;
                while i < members.len()
                    invariant
                        self@ == JsonView::Object(all),
                        all.len() == members.len(),
                        forall|j: int|
                            0 <= j < members.len() ==> #[trigger] all[j] == (
                                members[j].0@,
                                members[j].1@,
                            ),
                        i <= members.len(),
                        find_member(all, key@) == find_member(all.skip(i as int), key@),
                    decreases members.len() - i,
                {
                    let ghost rest = all.skip(i as int);
                    assert(rest[0] == all[i as int]);
                    assert(rest.drop_first() =~= all.skip(i + 1));
                    if members[i].0 == *key {
                        return Some(&members[i].1);
                    }
                    i = i + 1;
                }
                None
            },
            _ => None,
        }
    }

    /// Follows `path` from `self`, key by key. `Err` gives the position in
    /// `path` of the first key that names no member.
    pub fn lookup(&self, path: &Vec<String>) -> (r: Result<&Json, usize>)
        ensures
            match r {
                Ok(found) => lookup(self@, path.deep_view()) == Ok::<JsonView, nat>(found@),
                Err(step) => step < path.len() && lookup(self@, path.deep_view()) == Err::<
                    JsonView,
                    nat,
                >(step as nat),
            },
    {
        let ghost keys = path.deep_view();
        let mut current: &Json = self;
        let mut k: usize = 0;
        proof {
            assert(keys.take(0) =~= Seq::<Seq<char>>::empty());
        }
        while k < path.len()
            invariant
                keys == path.deep_view(),
                keys.len() == path.len(),
                k <= path.len(),
                lookup(self@, keys.take(k as int)) == Ok::<JsonView, nat>(current@),
            decreases path.len() - k,
        {
            let ghost before = current@;
            let ghost key = path[k as int]@;
            proof {
                let front = keys.take(k + 1);
                let last = front.skip(k as int);
                assert(keys[k as int] == key);
                assert(front.take(k as int) =~= keys.take(k as int));
                assert(last.len() == 1 && last[0] == key);
                assert(last.drop_first() =~= Seq::<Seq<char>>::empty());
                assert(lookup(before, last) == match member(before, key) {
                    None => Err::<JsonView, nat>(0),
                    Some(inner) => Ok(inner),
                }) by {
                    if let Some(inner) = member(before, key) {
                        assert(lookup(inner, last.drop_first()) == Ok::<JsonView, nat>(inner));
                    }
                }
                lemma_lookup_split(self@, front, k as int);
                assert(keys.take(k + 1) == front);
                lemma_lookup_split(self@, keys, k + 1);
            }
            match current.get(&path[k]) {
                Some(inner) => {
                    current = inner;
                },
                None => {
                    return Err(k);
                },
            }
            k = k + 1;
        }
        proof {
            assert(keys.take(k as int) =~= keys);
        }
        Ok(current)
    }

    /// The text, where `self` is one.
    pub fn as_text(&self) -> (r: Option<&String>)
        ensures
            r is Some <==> text_of(self@) is Some,
            r matches Some(s) ==> text_of(self@) == Some(s@),
    {
        match self {
            Json::Text(s) => Some(s),
            _ => None,
        }
    }

    /// The integer, where `self` is one from 0 to 2^64 - 1.
    pub fn as_count(&self) -> (r: Option<u64>)
        ensures
            r == count_of(self@),
    {
        match self {
            Json::Number(JsonNumber::Unsigned(n)) => Some(*n),
            _ => None,
        }
    }
}

} // verus!
