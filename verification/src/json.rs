//! JSON documents, as far as the endpoint handlers need them: reading the
//! text fields and the lists of a document, quoting a text for one, and
//! writing objects and lists. `serde_json` reads and writes them.

use crate::text::maybe_text;
use vstd::prelude::*;

verus! {

/// The text fields of a JSON document: for each name the text that the
/// document, taken as an object, holds under it, and `None` where it holds
/// no text there. There are as many entries as names. The whole is `None`
/// where the bytes are no JSON document.
pub uninterp spec fn json_fields(doc: Seq<u8>, names: Seq<Seq<char>>) -> Option<
    Seq<Option<Seq<char>>>,
>;

/// The list that a JSON document holds under a key: the compact JSON text of
/// each of its items, in their order, and the inner `None` where the
/// document holds no list there. The whole is `None` where the bytes are no
/// JSON document.
pub uninterp spec fn json_items(doc: Seq<u8>, key: Seq<char>) -> Option<Option<Seq<Seq<char>>>>;

/// The JSON string that writes a text: the text between quotation marks,
/// with what JSON asks to be escaped written as an escape.
pub uninterp spec fn json_quoted(text: Seq<char>) -> Option<Seq<char>>;

/// The JSON object that `serde_json` writes for members: under each key the
/// JSON value that the text at the same place writes. It is the compact
/// text of the object, or `None` where one of the texts writes no JSON
/// value or the object cannot be written.
pub uninterp spec fn json_object(keys: Seq<Seq<char>>, values: Seq<Seq<char>>) -> Option<
    Seq<char>,
>;

/// The JSON list that `serde_json` writes for items, each given as the text
/// of a JSON value. It is the compact text of the list, or `None` where one
/// of the texts writes no JSON value or the list cannot be written.
pub uninterp spec fn json_array(items: Seq<Seq<char>>) -> Option<Seq<char>>;

/// The texts of string slices.
pub open spec fn names_view(names: Seq<&str>) -> Seq<Seq<char>> {
    Seq::new(names.len(), |i: int| names[i]@)
}

/// The texts of strings.
pub open spec fn texts_view(texts: Seq<String>) -> Seq<Seq<char>> {
    Seq::new(texts.len(), |i: int| texts[i]@)
}

/// The texts of strings that may be missing.
pub open spec fn fields_view(fields: Seq<Option<String>>) -> Seq<Option<Seq<char>>> {
    Seq::new(fields.len(), |i: int| maybe_text(fields[i]))
}

/// `serde_json::from_slice` into a `serde_json::Value`, then for each name
/// the index by a key and `Value::as_str`: the texts that the document holds
/// under the names.
#[verifier::external_body]
pub(crate) fn read_fields(doc: &[u8], names: &[&str]) -> (r: Option<Vec<Option<String>>>)
    ensures
        match r {
            Some(fields) => json_fields(doc@, names_view(names@)) == Some(fields_view(fields@))
                && fields@.len() == names@.len(),
            None => json_fields(doc@, names_view(names@)) is None,
        },
{
    match serde_json::from_slice::<serde_json::Value>(doc) {
        Ok(value) => Some(
            names.iter().map(|name| value[*name].as_str().map(|text| text.to_string())).collect(),
        ),
        Err(_) => None,
    }
}

/// `serde_json::from_slice` into a `serde_json::Value`, then the index by a
/// key, `Value::as_array` and the text of each item as `Value` displays it.
#[verifier::external_body]
pub(crate) fn read_items(doc: &[u8], key: &str) -> (r: Option<Option<Vec<String>>>)
    ensures
        match r {
            Some(Some(items)) => json_items(doc@, key@) == Some(Some(texts_view(items@))),
            Some(None) => json_items(doc@, key@) == Some(None::<Seq<Seq<char>>>),
            None => json_items(doc@, key@) is None,
        },
{
    match serde_json::from_slice::<serde_json::Value>(doc) {
        Ok(value) => Some(
            value[key].as_array().map(|items| items.iter().map(|item| item.to_string()).collect()),
        ),
        Err(_) => None,
    }
}

/// `serde_json::to_string` of a string slice: the JSON string that writes
/// the text.
#[verifier::external_body]
pub(crate) fn quote(text: &str) -> (r: Option<String>)
    ensures
        match r {
            Some(quoted) => json_quoted(text@) == Some(quoted@),
            None => json_quoted(text@) is None,
        },
{
    match serde_json::to_string(text) {
        Ok(quoted) => Some(quoted),
        Err(_) => None,
    }
}

/// `serde_json::from_str` for each value, `serde_json::Map::insert` for each
/// member and `serde_json::to_string` of the object: the text of the JSON
/// object with these members.
#[verifier::external_body]
pub(crate) fn write_object(keys: &[&str], values: &[String]) -> (r: Option<String>)
    requires
        keys@.len() == values@.len(),
    ensures
        match r {
            Some(text) => json_object(names_view(keys@), texts_view(values@)) == Some(text@),
            None => json_object(names_view(keys@), texts_view(values@)) is None,
        },
{
    let mut map = serde_json::Map::new();
    for (key, value) in keys.iter().zip(values.iter()) {
        match serde_json::from_str::<serde_json::Value>(value) {
            Ok(member) => map.insert(key.to_string(), member),
            Err(_) => return None,
        };
    }
    match serde_json::to_string(&serde_json::Value::Object(map)) {
        Ok(text) => Some(text),
        Err(_) => None,
    }
}

/// `serde_json::from_str` for each item and `serde_json::to_string` of the
/// list: the text of the JSON list with these items.
#[verifier::external_body]
pub(crate) fn write_array(items: &[String]) -> (r: Option<String>)
    ensures
        match r {
            Some(text) => json_array(texts_view(items@)) == Some(text@),
            None => json_array(texts_view(items@)) is None,
        },
{
    let mut list: Vec<serde_json::Value> = Vec::new();
    for item in items.iter() {
        match serde_json::from_str::<serde_json::Value>(item) {
            Ok(value) => list.push(value),
            Err(_) => return None,
        };
    }
    match serde_json::to_string(&serde_json::Value::Array(list)) {
        Ok(text) => Some(text),
        Err(_) => None,
    }
}

/// The list of a document under a key, and the empty list where the
/// document holds no list there.
pub open spec fn items_of(doc: Seq<u8>, key: Seq<char>) -> Option<Seq<Seq<char>>> {
    match json_items(doc, key) {
        Some(Some(items)) => Some(items),
        Some(None) => Some(Seq::empty()),
        None => None,
    }
}

/// The document that holds a list under one key: the JSON object whose one
/// member is the list of the items, each given as its JSON text.
pub open spec fn list_document(key: Seq<char>, items: Seq<Seq<char>>) -> Option<Seq<char>> {
    match json_array(items) {
        Some(list) => json_object(seq![key], seq![list]),
        None => None,
    }
}

/// The document that holds one text under one key: the JSON object whose
/// one member is the JSON string of the text.
pub open spec fn pair_document(key: Seq<char>, text: Seq<char>) -> Option<Seq<char>> {
    match json_quoted(text) {
        Some(quoted) => json_object(seq![key], seq![quoted]),
        None => None,
    }
}

/// The list of a document under a key, each item as its JSON text.
pub fn list_items(doc: &[u8], key: &str) -> (r: Option<Vec<String>>)
    ensures
        match r {
            Some(items) => items_of(doc@, key@) == Some(texts_view(items@)),
            None => items_of(doc@, key@) is None,
        },
{
    match read_items(doc, key) {
        Some(Some(items)) => Some(items),
        Some(None) => {
            let items: Vec<String> = Vec::new();
            assert(texts_view(items@) =~= Seq::<Seq<char>>::empty());
            Some(items)
        },
        None => None,
    }
}

/// The document that holds the items as a list under one key.
pub fn write_list(key: &str, items: &Vec<String>) -> (r: Option<String>)
    ensures
        maybe_text(r) == list_document(key@, texts_view(items@)),
{
    match write_array(items.as_slice()) {
        Some(list) => {
            let keys: [&str; 1] = [key];
            let values: [String; 1] = [list];
            assert(names_view(keys@) =~= seq![key@]);
            assert(texts_view(values@) =~= seq![list@]);
            write_object(keys.as_slice(), values.as_slice())
        },
        None => None,
    }
}

/// The document that holds one text under one key.
pub fn write_pair(key: &str, value: &str) -> (r: Option<String>)
    ensures
        maybe_text(r) == pair_document(key@, value@),
{
    match quote(value) {
        Some(quoted) => {
            let keys: [&str; 1] = [key];
            let values: [String; 1] = [quoted];
            assert(names_view(keys@) =~= seq![key@]);
            assert(texts_view(values@) =~= seq![quoted@]);
            write_object(keys.as_slice(), values.as_slice())
        },
        None => None,
    }
}

} // verus!
