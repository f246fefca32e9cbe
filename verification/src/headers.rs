//! The header set of a run, read from a JSON object.
//!
//! The headers are given as the text of a JSON object whose members are the
//! header names and whose string values are the header values. A text that
//! is no JSON, or no object, gives no headers. A member whose value is no
//! string, whose name is no header name or whose value is no header value is
//! passed over. Header names are kept in their canonical, lower-case form,
//! and a later member replaces an earlier one of the same canonical name.

use vstd::prelude::*;
use vstd::utf8::encode_utf8;
use reqwest::header::{HeaderName, HeaderValue};
use serde_json::Value;

verus! {

/// The members of a JSON object as plain values: each member's name, and the
/// text of its value where the value is a string.
pub type Members = Seq<(Seq<char>, Option<Seq<char>>)>;

/// Header fields as plain values: canonical name and value.
pub type Fields = Seq<(Seq<char>, Seq<char>)>;

/// The members of the JSON object that a text is, in the order in which
/// `serde_json` hands out the members of an object it has parsed; `None`
/// where the text is no JSON or its value is no object.
pub uninterp spec fn json_members_of(text: Seq<char>) -> Option<Members>;

/// The canonical form of a header name after `http::HeaderName`: `None`
/// where the text is no header name.
pub uninterp spec fn canonical_name_of(name: Seq<char>) -> Option<Seq<char>>;

/// Whether a byte may stand in a header value: it is at least 32 and not
/// 127, or it is a tab.
pub open spec fn is_value_byte(b: u8) -> bool {
    (b >= 32 && b != 127) || b == 9
}

/// Whether a text is a header value: each byte of its UTF-8 form may stand
/// in one.
pub open spec fn is_header_value(text: Seq<char>) -> bool {
    forall|i: int| 0 <= i < encode_utf8(text).len() ==> is_value_byte(#[trigger] encode_utf8(text)[i])
}

/// `serde_json::from_str` for a `serde_json::Value`, and the members of the
/// object it gave. The contract names what comes back `json_members_of` of
/// the text: `None` for an error or a value that is no object, else every
/// member in the order of the parsed object's own iterator, a string value
/// with its text and any other value without.
#[verifier::external_body]
fn json_members(text: &str) -> (r: Option<Vec<(String, Option<String>)>>)
    ensures
        r.deep_view() == json_members_of(text@),
{
    let object = match serde_json::from_str::<Value>(text) {
        Ok(Value::Object(object)) => object,
        Ok(Value::Null | Value::Bool(_) | Value::Number(_) | Value::String(_) | Value::Array(_))
        | Err(_) => return None,
    };
    let mut members = Vec::new();
    for (name, value) in object {
        let text = match value {
            Value::String(text) => Some(text),
            Value::Null | Value::Bool(_) | Value::Number(_) | Value::Array(_) | Value::Object(_) => None,
        };
        members.push((name, text));
    }
    Some(members)
}

/// `HeaderName::from_bytes` of `http`, as `reqwest` re-exports it, on the
/// bytes of the text, and `HeaderName::as_str` on what it gave. The contract
/// names what comes back `canonical_name_of` of the text: `None` for an
/// error, else the name as a string.
#[verifier::external_body]
fn canonical_header_name(name: &str) -> (r: Option<String>)
    ensures
        r.deep_view() == canonical_name_of(name@),
{
    match HeaderName::from_bytes(name.as_bytes()) {
        Ok(header) => Some(header.as_str().to_owned()),
        Err(_) => None,
    }
}

/// `HeaderValue::from_str` of `http`, as `reqwest` re-exports it. The
/// contract claims that it succeeds exactly where each byte of the text is
/// at least 32 and not 127, or a tab.
#[verifier::external_body]
fn accepts_header_value(value: &str) -> (ok: bool)
    ensures
        ok == is_header_value(value@),
{
    HeaderValue::from_str(value).is_ok()
}

/// The place of the field called `name` among `fields`, if there is one.
pub open spec fn position_of(fields: Fields, name: Seq<char>) -> Option<int>
    decreases fields.len(),
{
    if fields.len() == 0 {
        None
    } else {
        match position_of(fields.drop_last(), name) {
            Some(i) => Some(i),
            None => if fields.last().0 == name {
                Some(fields.len() - 1)
            } else {
                None
            },
        }
    }
}

/// The fields after `name` was set to `value`: the field of that name gets
/// the new value where it stands, and a new name goes to the end.
pub open spec fn with_field(fields: Fields, name: Seq<char>, value: Seq<char>) -> Fields {
    match position_of(fields, name) {
        Some(i) => fields.update(i, (name, value)),
        None => fields.push((name, value)),
    }
}

/// Whether no two fields have the same name.
pub open spec fn distinct_names(fields: Fields) -> bool {
    forall|i: int, j: int|
        0 <= i < j < fields.len() ==> (#[trigger] fields[i]).0 != (#[trigger] fields[j]).0
}

/// The fields after one member was taken in: a member with a string value,
/// a name that is a header name and a value that is a header value sets the
/// field of its canonical name; any other member changes nothing.
pub open spec fn with_member(fields: Fields, member: (Seq<char>, Option<Seq<char>>)) -> Fields {
    match (member.1, canonical_name_of(member.0)) {
        (Some(value), Some(name)) => if is_header_value(value) {
            with_field(fields, name, value)
        } else {
            fields
        },
        _ => fields,
    }
}

/// The fields that the members of an object give, taken in one by one.
pub open spec fn fields_of(members: Members) -> Fields
    decreases members.len(),
{
    if members.len() == 0 {
        Seq::empty()
    } else {
        with_member(fields_of(members.drop_last()), members.last())
    }
}

/// The fields that an optional JSON text gives.
pub open spec fn headers_of(text: Option<Seq<char>>) -> Fields {
    match text {
        Some(t) => match json_members_of(t) {
            Some(members) => fields_of(members),
            None => Seq::empty(),
        },
        None => Seq::empty(),
    }
}

/// What `position_of` finds is a field of that name, and the first one;
/// where it finds nothing, no field has that name.
pub proof fn lemma_position_of(fields: Fields, name: Seq<char>)
    ensures
        match position_of(fields, name) {
            Some(i) => 0 <= i < fields.len() && fields[i].0 == name && forall|k: int|
                0 <= k < i ==> (#[trigger] fields[k]).0 != name,
            None => forall|k: int| 0 <= k < fields.len() ==> (#[trigger] fields[k]).0 != name,
        },
    decreases fields.len(),
{
    if fields.len() > 0 {
        lemma_position_of(fields.drop_last(), name);
        assert forall|k: int| 0 <= k < fields.len() - 1 implies fields.drop_last()[k]
            == fields[k] by {}
        match position_of(fields.drop_last(), name) {
            Some(i) => {
                assert forall|k: int| 0 <= k < i implies (#[trigger] fields[k]).0 != name by {
                    assert(fields.drop_last()[k] == fields[k]);
                }
            },
            None => {
                assert forall|k: int| 0 <= k < fields.len() - 1 implies (#[trigger] fields[k]).0
                    != name by {
                    assert(fields.drop_last()[k] == fields[k]);
                }
            },
        }
    }
}

/// Setting a field keeps the names distinct, and afterwards the field of
/// that name holds the value.
pub proof fn lemma_with_field_keeps_names_distinct(
    fields: Fields,
    name: Seq<char>,
    value: Seq<char>,
)
    requires
        distinct_names(fields),
    ensures
        distinct_names(with_field(fields, name, value)),
        position_of(with_field(fields, name, value), name) matches Some(i) && with_field(
            fields,
            name,
            value,
        )[i] == (name, value),
{
    lemma_position_of(fields, name);
    let after = with_field(fields, name, value);
    lemma_position_of(after, name);
    match position_of(fields, name) {
        Some(i) => {
            assert(after[i].0 == name);
        },
        None => {
            assert(after[fields.len() as int].0 == name);
        },
    }
}

/// However many members are taken in, no two fields have the same name.
pub proof fn lemma_fields_have_distinct_names(members: Members)
    ensures
        distinct_names(fields_of(members)),
    decreases members.len(),
{
    if members.len() > 0 {
        lemma_fields_have_distinct_names(members.drop_last());
        let before = fields_of(members.drop_last());
        let member = members.last();
        match (member.1, canonical_name_of(member.0)) {
            (Some(value), Some(name)) => {
                lemma_with_field_keeps_names_distinct(before, name, value);
            },
            _ => {},
        }
    }
}

/// A set of header fields in which no name occurs twice.
#[derive(Debug)]
pub struct HeaderSet {
    fields: Vec<(String, String)>,
}

impl View for HeaderSet {
    type V = Fields;

    closed spec fn view(&self) -> Fields {
        self.fields.deep_view()
    }
}

impl HeaderSet {
    #[verifier::type_invariant]
    spec fn inv(self) -> bool {
        distinct_names(self@)
    }

    /// A set without fields.
    pub fn new() -> (r: HeaderSet)
        ensures
            r@ == Seq::<(Seq<char>, Seq<char>)>::empty(),
    {
        let fields: Vec<(String, String)> = Vec::new();
        assert(fields.deep_view() =~= Seq::<(Seq<char>, Seq<char>)>::empty());
        HeaderSet { fields }
    }

    /// The number of fields.
    pub fn len(&self) -> (n: usize)
        ensures
            n == self@.len(),
    {
        self.fields.len()
    }

    /// The fields in order, each as name and value; no name occurs twice.
    pub fn fields(&self) -> (r: &Vec<(String, String)>)
        ensures
            r.deep_view() == self@,
            distinct_names(self@),
    {
        proof {
            use_type_invariant(self);
        }
        &self.fields
    }

    /// The place of the field called `name`, if there is one.
    pub fn position(&self, name: &String) -> (r: Option<usize>)
        ensures
            match r {
                Some(i) => position_of(self@, name@) == Some(i as int) && i < self@.len(),
                None => position_of(self@, name@) is None,
            },
    {
        let n = self.fields.len();
        let mut i: usize = 0;
        while i < n
            invariant
                i <= n,
                n == self.fields.len(),
                forall|k: int| 0 <= k < i ==> (#[trigger] self@[k]).0 != name@,
            decreases n - i,
        {
            assert(self@[i as int].0 == self.fields[i as int].0@);
            if self.fields[i].0 == *name {
                proof {
                    lemma_position_of(self@, name@);
                }
                return Some(i);
            }
            i = i + 1;
        }
        proof {
            lemma_position_of(self@, name@);
        }
        None
    }

    /// Sets the field called `name` to `value`: the field of that name gets
    /// the new value where it stands, and a new name goes to the end.
    pub fn insert(self, name: String, value: String) -> (r: HeaderSet)
        ensures
            r@ == with_field(self@, name@, value@),
            distinct_names(r@),
    {
        proof {
            use_type_invariant(&self);
            lemma_with_field_keeps_names_distinct(self@, name@, value@);
        }
        let ghost before = self@;
        let place = self.position(&name);
        let HeaderSet { mut fields } = self;
        match place {
            Some(i) => {
                fields[i] = (name, value);
                assert(fields.deep_view() =~= before.update(i as int, (name@, value@)));
            },
            None => {
                fields.push((name, value));
                assert(fields.deep_view() =~= before.push((name@, value@)));
            },
        }
        HeaderSet { fields }
    }
}

/// The header set that the members of a JSON object give.
pub fn headers_from_members(members: Vec<(String, Option<String>)>) -> (r: HeaderSet)
    ensures
        r@ == fields_of(members.deep_view()),
{
    let ghost given = members.deep_view();
    let mut set = HeaderSet::new();
    let n = members.len();
    let mut i: usize = 0;
    while i < n
        invariant
            i <= n,
            n == members.len(),
            given == members.deep_view(),
            set@ == fields_of(given.take(i as int)),
        decreases n - i,
    {
        assert(given.take(i + 1).drop_last() =~= given.take(i as int));
        assert(given[i as int].0 == members[i as int].0@);
        assert(given[i as int].1 == members[i as int].1.deep_view());
        let name = &members[i].0;
        match &members[i].1 {
            Some(value) => {
                match canonical_header_name(name.as_str()) {
                    Some(canonical) => {
                        if accepts_header_value(value.as_str()) {
                            set = set.insert(canonical, value.clone());
                        }
                    },
                    None => {},
                }
            },
            None => {},
        }
        i = i + 1;
    }
    assert(given.take(n as int) =~= given);
    set
}

/// The header set that an optional JSON text gives.
pub fn parse_from_json_string_headers(headers: Option<String>) -> (r: HeaderSet)
    ensures
        r@ == headers_of(headers.deep_view()),
{
    match headers {
        Some(text) => match json_members(text.as_str()) {
            Some(members) => headers_from_members(members),
            None => HeaderSet::new(),
        },
        None => HeaderSet::new(),
    }
}

} // verus!
