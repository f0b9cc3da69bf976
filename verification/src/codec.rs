//! Reading and writing JSON text. The text format itself is the work of the
//! `serde_json` crate; what it computes is named here, not restated.
use vstd::prelude::*;
use crate::json::{Json, JsonView, items_view, members_view};
use crate::text::single_line;

verus! {

/// `serde_json::Value`, carried from one call into `serde_json` to the next
/// without a look inside.
#[verifier::external_type_specification]
#[verifier::external_body]
pub struct ExValue(serde_json::Value);

/// What a `serde_json::Value` holds, as the value it denotes. A number is
/// denoted by the text that `serde_json` prints for it.
pub uninterp spec fn json_model(v: serde_json::Value) -> JsonView;

/// What `serde_json::from_str` reads from a text: the value, or `None` where
/// the text is not one JSON document.
pub uninterp spec fn json_parse(text: Seq<char>) -> Option<JsonView>;

/// The compact text that `serde_json::to_string` writes for a value.
pub uninterp spec fn json_text(j: JsonView) -> Seq<char>;

/// The indented text that `serde_json::to_string_pretty` writes for a value.
pub uninterp spec fn json_pretty_text(j: JsonView) -> Seq<char>;

/// The value as `serde_json` holds it. A tree keeps a number as literal text;
/// `serde_json` reads that text as a JSON document of its own, and holds
/// `null` where it cannot.
pub open spec fn stored(j: JsonView) -> JsonView
    decreases j,
{
    match j {
        JsonView::Number(t) => match json_parse(t) {
            Some(v) => v,
            None => JsonView::Null,
        },
        JsonView::Array(items) => JsonView::Array(
            Seq::new(
                items.len(),
                |i: int|
                    if 0 <= i < items.len() {
                        stored(items[i])
                    } else {
                        JsonView::Null
                    },
            ),
        ),
        JsonView::Object(m) => JsonView::Object(
            Map::new(
                |k: Seq<char>| m.contains_key(k),
                |k: Seq<char>|
                    if m.contains_key(k) {
                        stored(m[k])
                    } else {
                        JsonView::Null
                    },
            ),
        ),
        _ => j,
    }
}

/// `serde_json::from_str` at type `Value`: succeeds exactly on the texts that
/// are one JSON document, and then holds the value read. A failure comes back
/// as the message that `serde_json` prints for it.
#[verifier::external_body]
fn value_from_text(text: &str) -> (r: Result<serde_json::Value, String>)
    ensures
        r is Ok <==> json_parse(text@) is Some,
        r matches Ok(v) ==> json_parse(text@) == Some(json_model(v)),
{
    serde_json::from_str::<serde_json::Value>(text).map_err(|e| e.to_string())
}

/// Moves what a `serde_json::Value` holds into a tree, variant by variant; a
/// number becomes the text that `serde_json` prints for it.
#[verifier::external_body]
fn json_of_value(v: &serde_json::Value) -> (j: Json)
    ensures
        j@ == json_model(*v),
{
    match v {
        serde_json::Value::Null => Json::Null,
        serde_json::Value::Bool(b) => Json::Bool(*b),
        serde_json::Value::Number(n) => Json::Number(n.to_string()),
        serde_json::Value::String(s) => Json::String(s.clone()),
        serde_json::Value::Array(a) => Json::Array(a.iter().map(json_of_value).collect()),
        serde_json::Value::Object(o) => Json::Object(
            o.iter().map(|(k, x)| (k.clone(), json_of_value(x))).collect(),
        ),
    }
}

/// What a list of `serde_json::Value`s holds, one for one.
pub open spec fn models(values: Seq<serde_json::Value>) -> Seq<JsonView> {
    Seq::new(values.len(), |i: int| json_model(values[i]))
}

/// The mapping that a list of keys and `serde_json::Value`s denotes: a later
/// member replaces an earlier one with the same key.
pub open spec fn member_models(members: Seq<(String, serde_json::Value)>) -> Map<
    Seq<char>,
    JsonView,
>
    decreases members.len(),
{
    if members.len() == 0 {
        Map::empty()
    } else {
        member_models(members.drop_last()).insert(members.last().0@, json_model(members.last().1))
    }
}

/// `serde_json::Value::Null`.
#[verifier::external_body]
fn value_null() -> (v: serde_json::Value)
    ensures
        json_model(v) == JsonView::Null,
{
    serde_json::Value::Null
}

/// `serde_json::Value::Bool` of a truth value.
#[verifier::external_body]
fn value_bool(b: bool) -> (v: serde_json::Value)
    ensures
        json_model(v) == JsonView::Bool(b),
{
    serde_json::Value::Bool(b)
}

/// `serde_json::Value::String` of a text.
#[verifier::external_body]
fn value_string(s: &str) -> (v: serde_json::Value)
    ensures
        json_model(v) == JsonView::String(s@),
{
    serde_json::Value::String(s.to_owned())
}

/// `serde_json::Value::Array` of the values, in their order.
#[verifier::external_body]
fn value_array(items: Vec<serde_json::Value>) -> (v: serde_json::Value)
    ensures
        json_model(v) == JsonView::Array(models(items@)),
{
    serde_json::Value::Array(items)
}

/// `serde_json::Value::Object` of a `serde_json::Map` into which the members
/// are put with `insert`, one after the other; `insert` replaces the value of
/// a key that the map has already.
#[verifier::external_body]
fn value_object(members: Vec<(String, serde_json::Value)>) -> (v: serde_json::Value)
    ensures
        json_model(v) == JsonView::Object(member_models(members@)),
{
    let mut m = serde_json::Map::new();
    for (k, x) in members {
        m.insert(k, x);
    }
    serde_json::Value::Object(m)
}

/// Values that hold member by member what the members of an object are
/// stored as make the object as it is stored.
proof fn lemma_member_models(
    members: Seq<(String, Json)>,
    values: Seq<(String, serde_json::Value)>,
)
    requires
        values.len() == members.len(),
        forall|i: int|
            0 <= i < members.len() ==> values[i].0@ == members[i].0@ && json_model(values[i].1)
                == stored(members[i].1@),
    ensures
        JsonView::Object(member_models(values)) == stored(
            JsonView::Object(members_view(members)),
        ),
    decreases members.len(),
{
    let m = members_view(members);
    let kept = stored(JsonView::Object(m));
    assert(kept is Object);
    if members.len() == 0 {
        assert(member_models(values) =~= kept->Object_0);
    } else {
        lemma_member_models(members.drop_last(), values.drop_last());
        let rest = stored(JsonView::Object(members_view(members.drop_last())));
        assert(rest is Object);
        assert(member_models(values.drop_last()) == rest->Object_0);
        assert(member_models(values) =~= kept->Object_0);
    }
}

/// The `serde_json::Value` for a tree. The literal text of a number is read
/// as a JSON document of its own; where it cannot be read, the value is
/// `null`.
#[verifier::loop_isolation(false)]
fn value_of_json(j: &Json) -> (v: serde_json::Value)
    ensures
        json_model(v) == stored(j@),
    decreases j,
{
    match j {
        Json::Null => value_null(),
        Json::Bool(b) => value_bool(*b),
        Json::Number(t) => match value_from_text(t.as_str()) {
            Ok(v) => v,
            Err(_) => value_null(),
        },
        Json::String(s) => value_string(s.as_str()),
        Json::Array(items) => {
            let mut values: Vec<serde_json::Value> = Vec::new();
            let mut i: usize = 0;
            while i < items.len()
                invariant
                    i <= items.len(),
                    values.len() == i,
                    forall|k: int| 0 <= k < i ==> json_model(values@[k]) == stored(items@[k]@),
                decreases items.len() - i,
            {
                values.push(value_of_json(&items[i]));
                i = i + 1;
            }
            proof {
                let kept = stored(j@);
                assert(j@ == JsonView::Array(items_view(items@)));
                assert(kept is Array);
                assert(models(values@) =~= kept->Array_0);
            }
            value_array(values)
        },
        Json::Object(members) => {
            let mut values: Vec<(String, serde_json::Value)> = Vec::new();
            let mut i: usize = 0;
            while i < members.len()
                invariant
                    i <= members.len(),
                    values.len() == i,
                    forall|k: int|
                        0 <= k < i ==> values@[k].0@ == members@[k].0@ && json_model(values@[k].1)
                            == stored(members@[k].1@),
                decreases members.len() - i,
            {
                values.push((members[i].0.clone(), value_of_json(&members[i].1)));
                i = i + 1;
            }
            proof {
                lemma_member_models(members@, values@);
            }
            value_object(values)
        },
    }
}

/// `serde_json::to_string` on a `Value`, which has string keys only and so
/// always serialises. The compact form puts no white space between tokens
/// and writes a newline inside a string as an escape, so the text holds no
/// newline.
#[verifier::external_body]
fn value_to_text(v: &serde_json::Value) -> (s: String)
    ensures
        s@ == json_text(json_model(*v)),
        single_line(s@),
{
    serde_json::to_string(v).unwrap_or_default()
}

/// `serde_json::to_string_pretty` on a `Value`.
#[verifier::external_body]
fn value_to_pretty_text(v: &serde_json::Value) -> (s: String)
    ensures
        s@ == json_pretty_text(json_model(*v)),
{
    serde_json::to_string_pretty(v).unwrap_or_default()
}

/// Why a text could not be read as JSON.
#[derive(Debug)]
pub struct ParseError {
    pub message: String,
}

/// Reads one JSON document from `text`.
pub fn parse(text: &str) -> (r: Result<Json, ParseError>)
    ensures
        r is Ok <==> json_parse(text@) is Some,
        r matches Ok(j) ==> json_parse(text@) == Some(j@),
{
    match value_from_text(text) {
        Ok(v) => Ok(json_of_value(&v)),
        Err(message) => Err(ParseError { message }),
    }
}

/// The compact JSON text of a tree, which holds no newline.
pub fn to_text(j: &Json) -> (s: String)
    ensures
        s@ == json_text(stored(j@)),
        single_line(s@),
{
    let v = value_of_json(j);
    value_to_text(&v)
}

/// The indented JSON text of a tree.
pub fn to_pretty_text(j: &Json) -> (s: String)
    ensures
        s@ == json_pretty_text(stored(j@)),
{
    let v = value_of_json(j);
    value_to_pretty_text(&v)
}

} // verus!
