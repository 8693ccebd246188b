//! JSON documents as plain values, and the parser that reads them.
use vstd::prelude::*;
use vstd::string::*;

verus! {

/// A JSON document held as plain owned values.
#[derive(Debug, PartialEq, Eq)]
pub enum Json {
    Null,
    Bool(bool),
    /// A number, kept as its decimal text.
    Number(String),
    String(String),
    Array(Vec<Json>),
    /// The members of an object in order; a later member overrides an
    /// earlier one of the same name.
    Object(Vec<(String, Json)>),
}

/// The mathematical value of a [`Json`].
pub enum JsonValue {
    Null,
    Bool(bool),
    Number(Seq<char>),
    String(Seq<char>),
    Array(Seq<JsonValue>),
    Object(Seq<JsonMember>),
}

/// A member of an object: a name and a value.
pub struct JsonMember {
    pub name: Seq<char>,
    pub value: JsonValue,
}

impl View for Json {
    type V = JsonValue;

    open spec fn view(&self) -> JsonValue
        decreases self,
    {
        match self {
            Json::Null => JsonValue::Null,
            Json::Bool(b) => JsonValue::Bool(*b),
            Json::Number(n) => JsonValue::Number(n@),
            Json::String(s) => JsonValue::String(s@),
            Json::Array(items) => JsonValue::Array(
                Seq::new(
                    items@.len(),
                    |i: int|
                        if 0 <= i < items@.len() {
                            items@[i].view()
                        } else {
                            JsonValue::Null
                        },
                ),
            ),
            Json::Object(members) => JsonValue::Object(
                Seq::new(
                    members@.len(),
                    |i: int|
                        if 0 <= i < members@.len() {
                            (JsonMember { name: members@[i].0@, value: members@[i].1.view() })
                        } else {
                            (JsonMember { name: Seq::empty(), value: JsonValue::Null })
                        },
                ),
            ),
        }
    }
}

impl JsonValue {
    /// The place of the member called `name` that counts, the last of
    /// that name, if there is one.
    pub open spec fn member_index(members: Seq<JsonMember>, name: Seq<char>) -> Option<int>
        decreases members.len(),
    {
        if members.len() == 0 {
            None
        } else if members.last().name == name {
            Some(members.len() - 1)
        } else {
            Self::member_index(members.drop_last(), name)
        }
    }

    /// The member called `name` of an object; null where the value is no
    /// object or has no such member.
    pub open spec fn member_or_null(self, name: Seq<char>) -> JsonValue {
        match self {
            JsonValue::Object(members) => match Self::member_index(members, name) {
                Some(i) => members[i].value,
                None => JsonValue::Null,
            },
            _ => JsonValue::Null,
        }
    }
}

/// `serde_json::Value`, the parser's own document: carried from the
/// parser to the copy, never looked into.
#[verifier::external_type_specification]
#[verifier::external_body]
pub struct ExValue(serde_json::Value);

/// `serde_json::Error`, the parser's refusal: only its text is taken.
#[verifier::external_type_specification]
#[verifier::external_body]
pub struct ExParseError(serde_json::Error);

/// The document that a `serde_json::Value` holds, each number as the text
/// that `serde_json` prints for it, the members of an object in the order
/// in which its map hands them out.
pub uninterp spec fn value_content(v: serde_json::Value) -> JsonValue;

/// The document that `serde_json` reads from a text, `None` where it
/// refuses the text.
pub uninterp spec fn json_of_text(text: Seq<char>) -> Option<JsonValue>;

/// Calls `serde_json::from_str` for a `serde_json::Value`. Trusted: whether
/// the parser accepts, and the document it then returns, depend on the
/// text alone.
#[verifier::external_body]
fn parse_value(text: &str) -> (r: Result<serde_json::Value, serde_json::Error>)
    ensures
        match r {
            Ok(v) => json_of_text(text@) == Some(value_content(v)),
            Err(_) => json_of_text(text@).is_none(),
        },
{
    serde_json::from_str::<serde_json::Value>(text)
}

/// Copies a `serde_json::Value` variant by variant, a number through
/// `serde_json::Number`'s `to_string`. Trusted: the copy holds what the
/// value holds.
#[verifier::external_body]
fn json_from_value(v: &serde_json::Value) -> (j: Json)
    ensures
        j@ == value_content(*v),
{
    match v {
        serde_json::Value::Null => Json::Null,
        serde_json::Value::Bool(b) => Json::Bool(*b),
        serde_json::Value::Number(n) => Json::Number(n.to_string()),
        serde_json::Value::String(s) => Json::String(s.clone()),
        serde_json::Value::Array(a) => Json::Array(a.iter().map(json_from_value).collect()),
        serde_json::Value::Object(m) => Json::Object(
            m.iter().map(|(k, x)| (k.clone(), json_from_value(x))).collect(),
        ),
    }
}

/// Calls `to_string` on a `serde_json::Error`: the parser's own words, with
/// line and column. Nothing is claimed of them.
#[verifier::external_body]
fn parse_error_text(e: &serde_json::Error) -> (r: String) {
    e.to_string()
}

impl Json {
    /// Reads one JSON document from `text`. The error is the parser's
    /// message.
    pub fn parse(text: &str) -> (r: Result<Json, String>)
        ensures
            match r {
                Ok(j) => json_of_text(text@) == Some(j@),
                Err(_) => json_of_text(text@).is_none(),
            },
    {
        match parse_value(text) {
            Ok(v) => Ok(json_from_value(&v)),
            Err(e) => Err(parse_error_text(&e)),
        }
    }

    /// Gives up the document for its member called `name`: null where the
    /// document is no object or has no such member.
    pub fn into_member(self, name: &str) -> (r: Json)
        ensures
            r@ == self@.member_or_null(name@),
    {
        match self {
            Json::Object(members) => take_member(members, name),
            _ => Json::Null,
        }
    }
}

/// The value of the last of `members` that is called `name`, null where
/// none is.
fn take_member(members: Vec<(String, Json)>, name: &str) -> (r: Json)
    ensures
        r@ == Json::Object(members)@.member_or_null(name@),
{
    let ghost views = Json::Object(members)@->Object_0;
    let mut rest = members;
    let key = String::from_str(name);
    let mut found: Option<usize> = None;
    let mut i: usize = 0;
    while i < rest.len()
        invariant
            i <= rest.len(),
            rest.len() == views.len(),
            key@ == name@,
            forall|k: int|
                0 <= k < views.len() ==> #[trigger] views[k] == (JsonMember {
                    name: rest[k].0@,
                    value: rest[k].1@,
                }),
            match found {
                Some(k) => k < i && JsonValue::member_index(views.subrange(0, i as int), name@)
                    == Some(k as int),
                None => JsonValue::member_index(views.subrange(0, i as int), name@) == None::<
                    int,
                >,
            },
        decreases rest.len() - i,
    {
        proof {
            let upto = views.subrange(0, i + 1);
            assert(upto.drop_last() =~= views.subrange(0, i as int));
            assert(upto.last() == views[i as int]);
        }
        if rest[i].0 == key {
            found = Some(i);
        }
        i = i + 1;
    }
    assert(views.subrange(0, i as int) =~= views);
    match found {
        Some(k) => {
            let (_, value) = rest.remove(k);
            value
        },
        None => Json::Null,
    }
}

} // verus!
