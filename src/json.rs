//! A plain model of JSON documents, filled in by serde_json.

use vstd::prelude::*;
use crate::text::chars_of;

verus! {

#[verifier::external_type_specification]
#[verifier::external_body]
pub struct ExNumber(serde_json::Number);

#[verifier::external_type_specification]
#[verifier::external_body]
pub struct ExValue(serde_json::Value);

/// One JSON document. Object members keep the order in which serde_json
/// hands them out, and their keys are unique.
#[derive(Debug)]
pub enum JsonValue {
    Null,
    Bool(bool),
    Number(serde_json::Number),
    Str(String),
    Array(Vec<JsonValue>),
    Object(Vec<(String, JsonValue)>),
}

/// What serde_json makes of a byte string: a document, or the text of its
/// error. Depends on the bytes alone.
pub uninterp spec fn json_parse(bytes: Seq<u8>) -> Result<JsonValue, Seq<char>>;

/// The text that serde_json's pretty printer writes for a document.
pub uninterp spec fn json_pretty(v: JsonValue) -> Seq<char>;

/// Relies on serde_json::from_slice (into serde_json::Value): parses one
/// JSON document, surrounding whitespace allowed, and reports its error text.
#[verifier::external_body]
pub(crate) fn parse_json(bytes: &[u8]) -> (r: Result<JsonValue, String>)
    ensures
        match r {
            Ok(v) => json_parse(bytes@) == Ok::<JsonValue, Seq<char>>(v),
            Err(e) => json_parse(bytes@) == Err::<JsonValue, Seq<char>>(e@),
        },
{
    match serde_json::from_slice::<serde_json::Value>(bytes) {
        Ok(v) => Ok(from_serde(v)),
        Err(e) => Err(e.to_string()),
    }
}

/// Relies on serde_json::to_string_pretty: two-space indented JSON text.
/// Serialising a `serde_json::Value` cannot fail, so the empty fallback is
/// never taken.
#[verifier::external_body]
pub(crate) fn pretty_json(v: &JsonValue) -> (r: String)
    ensures
        r@ == json_pretty(*v),
{
    serde_json::to_string_pretty(&to_serde(v)).unwrap_or_default()
}

/// Moves a `serde_json::Value` into a `JsonValue`, variant for variant.
#[verifier::external_body]
fn from_serde(v: serde_json::Value) -> JsonValue {
    match v {
        serde_json::Value::Null => JsonValue::Null,
        serde_json::Value::Bool(b) => JsonValue::Bool(b),
        serde_json::Value::Number(n) => JsonValue::Number(n),
        serde_json::Value::String(s) => JsonValue::Str(s),
        serde_json::Value::Array(a) => JsonValue::Array(a.into_iter().map(from_serde).collect()),
        serde_json::Value::Object(m) => JsonValue::Object(
            m.into_iter().map(|(k, x)| (k, from_serde(x))).collect(),
        ),
    }
}

/// Copies a `JsonValue` into a `serde_json::Value`, variant for variant.
#[verifier::external_body]
fn to_serde(v: &JsonValue) -> serde_json::Value {
    match v {
        JsonValue::Null => serde_json::Value::Null,
        JsonValue::Bool(b) => serde_json::Value::Bool(*b),
        JsonValue::Number(n) => serde_json::Value::Number(n.clone()),
        JsonValue::Str(s) => serde_json::Value::String(s.clone()),
        JsonValue::Array(a) => serde_json::Value::Array(a.iter().map(to_serde).collect()),
        JsonValue::Object(m) => serde_json::Value::Object(
            m.iter().map(|(k, x)| (k.clone(), to_serde(x))).collect(),
        ),
    }
}

/// The first member of `fields` named `key`.
pub open spec fn member(fields: Seq<(String, JsonValue)>, key: Seq<char>) -> Option<JsonValue>
    decreases fields.len(),
{
    if fields.len() == 0 {
        None
    } else if fields[0].0@ == key {
        Some(fields[0].1)
    } else {
        member(fields.drop_first(), key)
    }
}

/// The member `key` of an object; `None` for a missing key or a non-object.
pub open spec fn field(v: JsonValue, key: Seq<char>) -> Option<JsonValue> {
    match v {
        JsonValue::Object(fields) => member(fields@, key),
        _ => None,
    }
}

/// A string value's characters.
pub open spec fn str_of(v: Option<JsonValue>) -> Option<Seq<char>> {
    match v {
        Some(JsonValue::Str(s)) => Some(s@),
        _ => None,
    }
}

/// Whether the two texts are the same.
pub fn str_eq(a: &str, b: &str) -> (r: bool)
    ensures
        r == (a@ == b@),
{
    let x = chars_of(a);
    let y = chars_of(b);
    if x.len() != y.len() {
        return false;
    }
    let mut i: usize = 0;
    while i < x.len()
        invariant
            x@ == a@,
            y@ == b@,
            x@.len() == y@.len(),
            i <= x@.len(),
            forall|j: int| 0 <= j < i ==> x@[j] == y@[j],
        decreases x@.len() - i,
    {
        if x[i] != y[i] {
            return false;
        }
        i += 1;
    }
    assert(x@ =~= y@);
    true
}

proof fn lemma_member_skip(fields: Seq<(String, JsonValue)>, i: int, key: Seq<char>)
    requires
        0 <= i <= fields.len(),
        forall|j: int| 0 <= j < i ==> fields[j].0@ != key,
    ensures
        member(fields, key) == member(fields.subrange(i, fields.len() as int), key),
    decreases i,
{
    if i == 0 {
        assert(fields.subrange(0, fields.len() as int) =~= fields);
    } else {
        lemma_member_skip(fields.drop_first(), i - 1, key);
        assert(fields.drop_first().subrange(i - 1, fields.len() - 1) =~= fields.subrange(
            i,
            fields.len() as int,
        ));
    }
}

/// Looks up the member `key` of an object.
pub fn get_field<'a>(v: &'a JsonValue, key: &str) -> (r: Option<&'a JsonValue>)
    ensures
        match r {
            Some(x) => field(*v, key@) == Some(*x),
            None => field(*v, key@) is None,
        },
{
    match v {
        JsonValue::Object(fields) => {
            let mut i: usize = 0;
            while i < fields.len()
                invariant
                    *v == JsonValue::Object(*fields),
                    0 <= i <= fields.len(),
                    forall|j: int| 0 <= j < i ==> fields@[j].0@ != key@,
                decreases fields.len() - i,
            {
                if str_eq(fields[i].0.as_str(), key) {
                    proof {
                        lemma_member_skip(fields@, i as int, key@);
                        let sub = fields@.subrange(i as int, fields.len() as int);
                        assert(sub[0] == fields@[i as int]);
                    }
                    return Some(&fields[i].1);
                }
                i += 1;
            }
            proof {
                lemma_member_skip(fields@, i as int, key@);
            }
            None
        },
        _ => None,
    }
}

/// The string held by member `key`, if it is a string.
pub fn get_str<'a>(v: &'a JsonValue, key: &str) -> (r: Option<&'a String>)
    ensures
        match r {
            Some(s) => str_of(field(*v, key@)) == Some(s@),
            None => str_of(field(*v, key@)) is None,
        },
{
    match get_field(v, key) {
        Some(JsonValue::Str(s)) => Some(s),
        _ => None,
    }
}

proof fn lemma_member_remove(fields: Seq<(String, JsonValue)>, i: int, key: Seq<char>)
    requires
        0 <= i < fields.len(),
        fields[i].0@ != key,
    ensures
        member(fields.remove(i), key) == member(fields, key),
    decreases i,
{
    if i == 0 {
        assert(fields.remove(0) =~= fields.drop_first());
    } else if fields[0].0@ != key {
        lemma_member_remove(fields.drop_first(), i - 1, key);
        assert(fields.remove(i).drop_first() =~= fields.drop_first().remove(i - 1));
    }
}

/// Removes the member `key` from an object's members and hands it out;
/// what the other keys look up stays as it was.
pub fn take_member(fields: &mut Vec<(String, JsonValue)>, key: &str) -> (r: Option<JsonValue>)
    ensures
        r == member(old(fields)@, key@),
        forall|k: Seq<char>| k != key@ ==> member(final(fields)@, k) == member(old(fields)@, k),
{
    let mut i: usize = 0;
    while i < fields.len()
        invariant
            fields@ == old(fields)@,
            0 <= i <= fields.len(),
            forall|j: int| 0 <= j < i ==> fields@[j].0@ != key@,
        decreases fields.len() - i,
    {
        if str_eq(fields[i].0.as_str(), key) {
            proof {
                lemma_member_skip(fields@, i as int, key@);
                let sub = fields@.subrange(i as int, fields.len() as int);
                assert(sub[0] == fields@[i as int]);
                assert forall|k: Seq<char>| k != key@ implies member(
                    fields@.remove(i as int),
                    k,
                ) == member(fields@, k) by {
                    lemma_member_remove(fields@, i as int, k);
                }
            }
            let (_, v) = fields.remove(i);
            return Some(v);
        }
        i += 1;
    }
    proof {
        lemma_member_skip(fields@, i as int, key@);
    }
    None
}

} // verus!
