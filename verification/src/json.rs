//! JSON documents, as the `serde_json` crate parses them.
use crate::text::texts;
use serde_json::Value;
use vstd::prelude::*;

verus! {

#[verifier::external_type_specification]
#[verifier::external_body]
pub struct ExValue(Value);

#[verifier::external_type_specification]
#[verifier::external_body]
pub struct ExError(serde_json::Error);

/// What a JSON value holds. Of a number, only that it is one.
pub enum Json {
    Null,
    Bool(bool),
    Number,
    Text(Seq<char>),
    Array(Seq<Json>),
    Object(Map<Seq<char>, Json>),
}

/// The contents of a JSON value.
pub uninterp spec fn contents(value: Value) -> Json;

/// The contents of the document that a text is, if `serde_json::from_str`
/// accepts it as one.
pub uninterp spec fn document(text: Seq<char>) -> Option<Json>;

/// `serde_json::from_str`, asked for a value, depends on the text alone.
/// Which texts are documents, and of what contents, is left to the crate.
#[verifier::external_body]
pub(crate) fn parse(text: &str) -> (r: Result<Value, serde_json::Error>)
    ensures
        r is Ok <==> document(text@) is Some,
        r matches Ok(value) ==> document(text@) == Some(contents(value)),
{
    serde_json::from_str(text)
}

/// `Value::get`, asked for a name, gives the member of that name of an object,
/// and nothing of another value or where there is none.
#[verifier::external_body]
pub(crate) fn get<'a>(value: &'a Value, name: &str) -> (r: Option<&'a Value>)
    ensures
        match contents(*value) {
            Json::Object(members) => match r {
                Some(member) => members.contains_key(name@) && members[name@] == contents(*member),
                None => !members.contains_key(name@),
            },
            _ => r is None,
        },
{
    value.get(name)
}

/// `Value::as_array` gives the items of an array, and nothing of another value.
pub assume_specification[ Value::as_array ](value: &Value) -> (r: Option<&Vec<Value>>)
    ensures
        match contents(*value) {
            Json::Array(items) => r is Some && r->0@.map_values(|item: Value| contents(item)) == items,
            _ => r is None,
        },
;

/// `Value::as_str` gives the text of a string, and nothing of another value.
pub assume_specification[ Value::as_str ](value: &Value) -> (r: Option<&str>)
    ensures
        match contents(*value) {
            Json::Text(text) => r is Some && r->0@ == text,
            _ => r is None,
        },
;

/// The text of a member of an object, if there is one and it is a string.
pub open spec fn text_member(json: Json, name: Seq<char>) -> Option<Seq<char>> {
    match json {
        Json::Object(members) => if members.contains_key(name) {
            match members[name] {
                Json::Text(text) => Some(text),
                _ => None,
            }
        } else {
            None
        },
        _ => None,
    }
}

/// The texts among the items of an array, in order.
pub open spec fn text_items(items: Seq<Json>) -> Seq<Seq<char>>
    decreases items.len(),
{
    if items.len() == 0 {
        Seq::empty()
    } else {
        let front = text_items(items.drop_last());
        match items.last() {
            Json::Text(text) => front.push(text),
            _ => front,
        }
    }
}

/// The texts among the items of an array member of an object, if there is
/// such a member and it is an array.
pub open spec fn text_items_member(json: Json, name: Seq<char>) -> Option<Seq<Seq<char>>> {
    match json {
        Json::Object(members) => if members.contains_key(name) {
            match members[name] {
                Json::Array(items) => Some(text_items(items)),
                _ => None,
            }
        } else {
            None
        },
        _ => None,
    }
}

/// The text of a member of an object, if there is one and it is a string.
pub fn get_text(value: &Value, name: &str) -> (r: Option<String>)
    ensures
        match r {
            Some(text) => text_member(contents(*value), name@) == Some(text@),
            None => text_member(contents(*value), name@) is None,
        },
{
    match get(value, name) {
        Some(member) => match member.as_str() {
            Some(text) => Some(text.to_owned()),
            None => None,
        },
        None => None,
    }
}

/// The texts among the items of an array member of an object, if there is
/// such a member and it is an array.
pub fn get_text_items(value: &Value, name: &str) -> (r: Option<Vec<String>>)
    ensures
        match r {
            Some(items) => text_items_member(contents(*value), name@) == Some(texts(items@)),
            None => text_items_member(contents(*value), name@) is None,
        },
{
    let member: &Value = match get(value, name) {
        Some(member) => member,
        None => {
            return None;
        },
    };
    let items: &Vec<Value> = match member.as_array() {
        Some(items) => items,
        None => {
            return None;
        },
    };
    let ghost all = items@.map_values(|item: Value| contents(item));
    let mut r: Vec<String> = Vec::new();
    let mut i: usize = 0;
    assert(texts(r@) =~= text_items(all.take(0)));
    while i < items.len()
        invariant
            i <= items.len(),
            all == items@.map_values(|item: Value| contents(item)),
            texts(r@) == text_items(all.take(i as int)),
        decreases items.len() - i,
    {
        assert(all.take(i + 1).drop_last() =~= all.take(i as int));
        assert(all.take(i + 1).last() == contents(items@[i as int]));
        if let Some(text) = items[i].as_str() {
            let ghost before = r@;
            r.push(text.to_owned());
            assert(texts(r@) =~= texts(before).push(text@));
        }
        i += 1;
    }
    assert(all.take(i as int) =~= all);
    Some(r)
}

} // verus!
