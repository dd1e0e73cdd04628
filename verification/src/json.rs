//! JSON documents as the analysis reads them, and the text that a chat
//! completion reply carries.

use vstd::prelude::*;
use vstd::string::StringExecFns;

use crate::text::{chars_of, str_eq};

verus! {

/// A JSON document.  Numbers keep their source text; an object keeps its
/// entries in order, with distinct keys.
#[derive(Debug)]
pub enum JsonValue {
    Null,
    Bool(bool),
    Number(String),
    String(String),
    Array(Vec<JsonValue>),
    Object(Vec<(String, JsonValue)>),
}

/// A JSON document as a mathematical value: text in place of strings,
/// sequences in place of vectors.
pub enum JsonView {
    Null,
    Bool(bool),
    Number(Seq<char>),
    Text(Seq<char>),
    Array(Seq<JsonView>),
    Object(Seq<(Seq<char>, JsonView)>),
}

pub open spec fn json_view(v: JsonValue) -> JsonView
    decreases v,
{
    match v {
        JsonValue::Null => JsonView::Null,
        JsonValue::Bool(b) => JsonView::Bool(b),
        JsonValue::Number(n) => JsonView::Number(n@),
        JsonValue::String(t) => JsonView::Text(t@),
        JsonValue::Array(items) => JsonView::Array(items_view(items@)),
        JsonValue::Object(entries) => JsonView::Object(entries_view(entries@)),
    }
}

/// The views of a sequence of documents.
pub open spec fn items_view(items: Seq<JsonValue>) -> Seq<JsonView>
    decreases items,
{
    if items.len() == 0 {
        Seq::empty()
    } else {
        items_view(items.drop_last()).push(json_view(items.last()))
    }
}

/// The views of an object's entries.
pub open spec fn entries_view(entries: Seq<(String, JsonValue)>) -> Seq<(Seq<char>, JsonView)>
    decreases entries,
{
    if entries.len() == 0 {
        Seq::empty()
    } else {
        entries_view(entries.drop_last()).push((entries.last().0@, json_view(entries.last().1)))
    }
}

/// The value of the first entry named `key`.
pub open spec fn entry_lookup(entries: Seq<(String, JsonValue)>, key: Seq<char>) -> Option<
    JsonValue,
>
    decreases entries.len(),
{
    if entries.len() == 0 {
        None
    } else if entries[0].0@ == key {
        Some(entries[0].1)
    } else {
        entry_lookup(entries.drop_first(), key)
    }
}

/// The member `key` of an object; nothing for any other value.
pub open spec fn json_get(v: JsonValue, key: Seq<char>) -> Option<JsonValue> {
    match v {
        JsonValue::Object(entries) => entry_lookup(entries@, key),
        _ => None,
    }
}

/// `value.get(key)`.
pub fn get<'a>(value: &'a JsonValue, key: &str) -> (r: Option<&'a JsonValue>)
    ensures
        match r {
            Some(x) => json_get(*value, key@) == Some(*x),
            None => json_get(*value, key@) is None,
        },
{
    match value {
        JsonValue::Object(entries) => {
            let mut i: usize = 0;
            assert(entries@.subrange(0, entries.len() as int) =~= entries@);
            while i < entries.len()
                invariant
                    i <= entries.len(),
                    json_get(*value, key@) == entry_lookup(entries@, key@),
                    entry_lookup(entries@, key@) == entry_lookup(
                        entries@.subrange(i as int, entries.len() as int),
                        key@,
                    ),
                decreases entries.len() - i,
            {
                let ghost rest = entries@.subrange(i as int, entries.len() as int);
                assert(rest[0] == entries@[i as int]);
                if str_eq(entries[i].0.as_str(), key) {
                    assert(rest.len() > 0 && rest[0].0@ == key@);
                    assert(entry_lookup(rest, key@) == Some(rest[0].1));
                    return Some(&entries[i].1);
                }
                assert(rest.drop_first() =~= entries@.subrange(i + 1, entries.len() as int));
                i = i + 1;
            }
            None
        },
        _ => None,
    }
}

/// The first element of the reply's `choices` array.
pub open spec fn first_choice(reply: JsonValue) -> Option<JsonValue> {
    match json_get(reply, "choices"@) {
        Some(JsonValue::Array(items)) => if items.len() > 0 {
            Some(items@[0])
        } else {
            None
        },
        _ => None,
    }
}

/// The `message.content` of a choice.
pub open spec fn message_content(choice: JsonValue) -> Option<JsonValue> {
    match json_get(choice, "message"@) {
        Some(message) => json_get(message, "content"@),
        None => None,
    }
}

/// The `text` string of a content part, or nothing.
pub open spec fn part_text(part: JsonValue) -> Seq<char> {
    match json_get(part, "text"@) {
        Some(JsonValue::String(t)) => t@,
        _ => Seq::empty(),
    }
}

/// The texts of the content parts, in order.
pub open spec fn parts_text(parts: Seq<JsonValue>) -> Seq<char>
    decreases parts.len(),
{
    if parts.len() == 0 {
        Seq::empty()
    } else {
        parts_text(parts.drop_last()) + part_text(parts.last())
    }
}

pub open spec fn missing_choices_message() -> Seq<char> {
    "model response did not include choices[0]"@
}

pub open spec fn missing_content_message() -> Seq<char> {
    "model response did not include message.content"@
}

pub open spec fn unsupported_content_message() -> Seq<char> {
    "model response content was not a supported text format"@
}

/// The text of a chat completion reply: the content of its first choice,
/// either a string or the joined texts of its parts when those are not empty.
pub open spec fn chat_content(reply: JsonValue) -> Result<Seq<char>, Seq<char>> {
    match first_choice(reply) {
        None => Err(missing_choices_message()),
        Some(choice) => match message_content(choice) {
            None => Err(missing_content_message()),
            Some(JsonValue::String(t)) => Ok(t@),
            Some(JsonValue::Array(parts)) => if parts_text(parts@).len() > 0 {
                Ok(parts_text(parts@))
            } else {
                Err(unsupported_content_message())
            },
            Some(_) => Err(unsupported_content_message()),
        },
    }
}

/// The text view of a string result.
pub open spec fn text_result(r: Result<String, String>) -> Result<Seq<char>, Seq<char>> {
    match r {
        Ok(s) => Ok(s@),
        Err(e) => Err(e@),
    }
}

pub fn extract_chat_content(response: &JsonValue) -> (r: Result<String, String>)
    ensures
        text_result(r) == chat_content(*response),
{
    let choice = match get(response, "choices") {
        Some(JsonValue::Array(items)) => {
            if items.len() > 0 {
                &items[0]
            } else {
                return Err(String::from_str("model response did not include choices[0]"));
            }
        },
        _ => {
            return Err(String::from_str("model response did not include choices[0]"));
        },
    };
    let content = match get(choice, "message") {
        Some(message) => match get(message, "content") {
            Some(c) => c,
            None => {
                return Err(String::from_str("model response did not include message.content"));
            },
        },
        None => {
            return Err(String::from_str("model response did not include message.content"));
        },
    };
    match content {
        JsonValue::String(t) => {
            return Ok(t.clone());
        },
        JsonValue::Array(parts) => {
            let mut text = String::new();
            let mut i: usize = 0;
            while i < parts.len()
                invariant
                    i <= parts.len(),
                    text@ == parts_text(parts@.take(i as int)),
                decreases parts.len() - i,
            {
                assert(parts@.take(i + 1).drop_last() =~= parts@.take(i as int));
                match get(&parts[i], "text") {
                    Some(JsonValue::String(fragment)) => {
                        text.append(fragment.as_str());
                    },
                    _ => {},
                }
                i = i + 1;
            }
            assert(parts@.take(parts.len() as int) =~= parts@);
            if chars_of(text.as_str()).len() > 0 {
                return Ok(text);
            }
        },
        _ => {},
    }
    Err(String::from_str("model response content was not a supported text format"))
}

} // verus!
