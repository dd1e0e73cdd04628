//! The exchange with a model server: where an analysis request goes, what
//! it carries, and what the reply means.  LM Studio is spoken to through its
//! native chat API with reasoning turned off; any other server through the
//! OpenAI-compatible chat completions API.

use vstd::prelude::*;
use vstd::string::StringExecFns;

use crate::analysis::{
    authorization_header, bearer_text, chat_completions_url, chat_url, is_header_value_text,
    CheckedHeader, ModelProvider,
};
use crate::json::{
    chat_content, entries_view, extract_chat_content, get, items_view, json_get, json_view,
    JsonValue, JsonView,
};
use crate::text::{
    chars_of, concat, decimal, decimal_string, has_suffix, in_class, str_ends_with, string_of,
    sub_chars, trim_end_chars, trim_end_class, CharClass,
};

verus! {

/// The path of LM Studio's native chat endpoint.
pub open spec fn native_chat_path() -> Seq<char> {
    "/api/v1/chat"@
}

/// LM Studio's native chat URL for an endpoint, with trailing `/` removed:
/// an endpoint that already names the native chat is kept, the native API
/// base `/api/v1` gets `/chat`, the OpenAI-compatible base `/v1` is replaced
/// by the native chat path, and any other endpoint is taken as the server's
/// root.
pub open spec fn native_chat_url(endpoint: Seq<char>) -> Seq<char> {
    let t = trim_end_class(endpoint, CharClass::Exactly('/'));
    if has_suffix(t, native_chat_path()) {
        t
    } else if has_suffix(t, "/api/v1"@) {
        t + "/chat"@
    } else if has_suffix(t, "/v1"@) {
        t.subrange(0, t.len() - 3) + native_chat_path()
    } else {
        t + native_chat_path()
    }
}

pub fn lm_studio_chat_url(endpoint: &str) -> (r: String)
    ensures
        r@ == native_chat_url(endpoint@),
{
    proof {
        reveal_strlit("/v1");
    }
    let v = chars_of(endpoint);
    let t = trim_end_chars(&v, CharClass::Exactly('/'));
    let ts = string_of(&t);
    if str_ends_with(ts.as_str(), "/api/v1/chat") {
        ts
    } else if str_ends_with(ts.as_str(), "/api/v1") {
        concat(ts.as_str(), "/chat")
    } else if str_ends_with(ts.as_str(), "/v1") {
        let base = sub_chars(&t, 0, t.len() - 3);
        let b = string_of(&base);
        concat(b.as_str(), "/api/v1/chat")
    } else {
        concat(ts.as_str(), "/api/v1/chat")
    }
}

/// Asking for the native chat URL of a native chat URL changes nothing.
pub proof fn lemma_native_chat_url_idempotent(endpoint: Seq<char>)
    ensures
        native_chat_url(native_chat_url(endpoint)) == native_chat_url(endpoint),
{
    reveal_strlit("/api/v1/chat");
    reveal_strlit("/api/v1");
    reveal_strlit("/chat");
    reveal_strlit("/v1");
    let t = trim_end_class(endpoint, CharClass::Exactly('/'));
    let p = native_chat_path();
    let u = native_chat_url(endpoint);
    if has_suffix(t, p) {
    } else if has_suffix(t, "/api/v1"@) {
        let pre = t.subrange(0, t.len() - 7);
        assert(t =~= pre + "/api/v1"@);
        assert(u =~= pre + p);
        assert(u.subrange(u.len() - p.len(), u.len() as int) =~= p);
    } else if has_suffix(t, "/v1"@) {
        let pre = t.subrange(0, t.len() - 3);
        assert(u.subrange(u.len() - p.len(), u.len() as int) =~= p);
    } else {
        assert(u.subrange(u.len() - p.len(), u.len() as int) =~= p);
    }
    assert(has_suffix(u, p));
    assert(u.last() == p.last());
    assert(u.len() > 0 && !in_class(CharClass::Exactly('/'), u.last()));
    assert(trim_end_class(u, CharClass::Exactly('/')) == u);
}

/// Where a provider's analysis request is posted.
pub open spec fn request_url(provider: ModelProvider, endpoint: Seq<char>) -> Seq<char> {
    match provider {
        ModelProvider::LmStudio => native_chat_url(endpoint),
        ModelProvider::OpenAiCompatible => chat_url(endpoint),
    }
}

pub fn model_request_url(provider: ModelProvider, endpoint: &str) -> (r: String)
    ensures
        r@ == request_url(provider, endpoint@),
{
    match provider {
        ModelProvider::LmStudio => lm_studio_chat_url(endpoint),
        ModelProvider::OpenAiCompatible => chat_completions_url(endpoint),
    }
}

/// A token budget as JSON: the number, or `null` when none is set.
pub open spec fn token_budget(max_tokens: Option<u32>) -> JsonView {
    match max_tokens {
        Some(n) => JsonView::Number(decimal(n as nat)),
        None => JsonView::Null,
    }
}

/// One chat message.
pub open spec fn message_view(role: Seq<char>, content: Seq<char>) -> JsonView {
    JsonView::Object(
        seq![("role"@, JsonView::Text(role)), ("content"@, JsonView::Text(content))],
    )
}

/// The body of an analysis request.  The OpenAI-compatible body carries the
/// model, the system and user messages, the temperature and the token
/// budget.  The native LM Studio body carries the model, the system prompt,
/// the user prompt as input, reasoning turned off, the temperature, and the
/// token budget when one is set.
pub open spec fn request_body(
    provider: ModelProvider,
    model: Seq<char>,
    system_prompt: Seq<char>,
    user_prompt: Seq<char>,
    temperature: JsonView,
    max_tokens: Option<u32>,
) -> JsonView {
    match provider {
        ModelProvider::OpenAiCompatible => JsonView::Object(
            seq![
                ("model"@, JsonView::Text(model)),
                (
                    "messages"@,
                    JsonView::Array(
                        seq![
                            message_view("system"@, system_prompt),
                            message_view("user"@, user_prompt),
                        ],
                    ),
                ),
                ("temperature"@, temperature),
                ("max_tokens"@, token_budget(max_tokens)),
            ],
        ),
        ModelProvider::LmStudio => JsonView::Object(
            seq![
                ("model"@, JsonView::Text(model)),
                ("system_prompt"@, JsonView::Text(system_prompt)),
                ("input"@, JsonView::Text(user_prompt)),
                ("reasoning"@, JsonView::Text("off"@)),
                ("temperature"@, temperature),
            ] + match max_tokens {
                Some(n) => seq![("max_output_tokens"@, JsonView::Number(decimal(n as nat)))],
                None => Seq::empty(),
            },
        ),
    }
}

fn text_value(s: &str) -> (v: JsonValue)
    ensures
        json_view(v) == JsonView::Text(s@),
{
    JsonValue::String(String::from_str(s))
}

fn push_entry(entries: &mut Vec<(String, JsonValue)>, key: &str, value: JsonValue)
    ensures
        entries_view(final(entries)@) == entries_view(old(entries)@).push((key@, json_view(value))),
{
    let ghost v = json_view(value);
    entries.push((String::from_str(key), value));
    assert(entries@.drop_last() =~= old(entries)@);
    assert(entries@.last().0@ == key@);
}

fn push_item(items: &mut Vec<JsonValue>, value: JsonValue)
    ensures
        items_view(final(items)@) == items_view(old(items)@).push(json_view(value)),
{
    items.push(value);
    assert(items@.drop_last() =~= old(items)@);
}

fn message_value(role: &str, content: &str) -> (v: JsonValue)
    ensures
        json_view(v) == message_view(role@, content@),
{
    let mut entries: Vec<(String, JsonValue)> = Vec::new();
    assert(entries_view(entries@) =~= Seq::<(Seq<char>, JsonView)>::empty());
    push_entry(&mut entries, "role", text_value(role));
    push_entry(&mut entries, "content", text_value(content));
    proof {
        reveal_strlit("role");
        reveal_strlit("content");
    }
    assert(entries_view(entries@) =~= seq![
        ("role"@, JsonView::Text(role@)),
        ("content"@, JsonView::Text(content@)),
    ]);
    JsonValue::Object(entries)
}

fn budget_value(n: u32) -> (v: JsonValue)
    ensures
        json_view(v) == JsonView::Number(decimal(n as nat)),
{
    JsonValue::Number(decimal_string(n as u64))
}

/// The body of an analysis request (see `request_body`).
pub fn model_request_body(
    provider: ModelProvider,
    model: &str,
    system_prompt: &str,
    user_prompt: &str,
    temperature: JsonValue,
    max_tokens: Option<u32>,
) -> (b: JsonValue)
    ensures
        json_view(b) == request_body(
            provider,
            model@,
            system_prompt@,
            user_prompt@,
            json_view(temperature),
            max_tokens,
        ),
{
    let ghost t = json_view(temperature);
    let mut entries: Vec<(String, JsonValue)> = Vec::new();
    assert(entries_view(entries@) =~= Seq::<(Seq<char>, JsonView)>::empty());
    push_entry(&mut entries, "model", text_value(model));
    match provider {
        ModelProvider::OpenAiCompatible => {
            let mut messages: Vec<JsonValue> = Vec::new();
            assert(items_view(messages@) =~= Seq::<JsonView>::empty());
            push_item(&mut messages, message_value("system", system_prompt));
            push_item(&mut messages, message_value("user", user_prompt));
            assert(items_view(messages@) =~= seq![
                message_view("system"@, system_prompt@),
                message_view("user"@, user_prompt@),
            ]);
            push_entry(&mut entries, "messages", JsonValue::Array(messages));
            push_entry(&mut entries, "temperature", temperature);
            let budget = match max_tokens {
                Some(n) => budget_value(n),
                None => JsonValue::Null,
            };
            push_entry(&mut entries, "max_tokens", budget);
            assert(entries_view(entries@) =~= seq![
                ("model"@, JsonView::Text(model@)),
                (
                    "messages"@,
                    JsonView::Array(
                        seq![
                            message_view("system"@, system_prompt@),
                            message_view("user"@, user_prompt@),
                        ],
                    ),
                ),
                ("temperature"@, t),
                ("max_tokens"@, token_budget(max_tokens)),
            ]);
        },
        ModelProvider::LmStudio => {
            push_entry(&mut entries, "system_prompt", text_value(system_prompt));
            push_entry(&mut entries, "input", text_value(user_prompt));
            push_entry(&mut entries, "reasoning", text_value("off"));
            push_entry(&mut entries, "temperature", temperature);
            let ghost fixed = seq![
                ("model"@, JsonView::Text(model@)),
                ("system_prompt"@, JsonView::Text(system_prompt@)),
                ("input"@, JsonView::Text(user_prompt@)),
                ("reasoning"@, JsonView::Text("off"@)),
                ("temperature"@, t),
            ];
            assert(entries_view(entries@) =~= fixed);
            match max_tokens {
                Some(n) => {
                    push_entry(&mut entries, "max_output_tokens", budget_value(n));
                    assert(entries_view(entries@) =~= fixed + seq![
                        ("max_output_tokens"@, JsonView::Number(decimal(n as nat))),
                    ]);
                },
                None => {
                    assert(entries_view(entries@) =~= fixed + Seq::<(Seq<char>, JsonView)>::empty());
                },
            }
        },
    }
    JsonValue::Object(entries)
}

/// An analysis request ready to be posted: its URL, its body, and the
/// `Authorization` header when an API key is given.
#[derive(Debug)]
pub struct ChatRequest {
    pub url: String,
    pub body: JsonValue,
    pub authorization: Option<CheckedHeader>,
}

/// The request for an analysis.  It is refused, with the header's error,
/// exactly when an API key is given that cannot be carried in a header.
pub fn build_chat_request(
    provider: ModelProvider,
    endpoint: &str,
    model: &str,
    api_key: Option<&str>,
    system_prompt: &str,
    user_prompt: &str,
    temperature: JsonValue,
    max_tokens: Option<u32>,
) -> (r: Result<ChatRequest, String>)
    ensures
        r is Ok <==> (api_key matches Some(k) ==> is_header_value_text(bearer_text(k@))),
        r matches Err(e) ==> e@ == "invalid API key header: failed to parse header value"@,
        r matches Ok(q) ==> {
            &&& q.url@ == request_url(provider, endpoint@)
            &&& json_view(q.body) == request_body(
                provider,
                model@,
                system_prompt@,
                user_prompt@,
                json_view(temperature),
                max_tokens,
            )
            &&& match api_key {
                Some(k) => q.authorization matches Some(h) && h.text_view() == bearer_text(k@),
                None => q.authorization is None,
            }
        },
{
    let authorization = match api_key {
        Some(k) => match authorization_header(k) {
            Ok(h) => Some(h),
            Err(e) => {
                return Err(e);
            },
        },
        None => None,
    };
    let body = model_request_body(
        provider,
        model,
        system_prompt,
        user_prompt,
        temperature,
        max_tokens,
    );
    Ok(ChatRequest { url: model_request_url(provider, endpoint), body, authorization })
}

/// The text of one item of a native reply's `output`: the `content` of a
/// `message` item, nothing for any other item.
pub open spec fn output_item_text(item: JsonValue) -> Seq<char> {
    match json_get(item, "type"@) {
        Some(JsonValue::String(kind)) => if kind@ == "message"@ {
            match json_get(item, "content"@) {
                Some(JsonValue::String(c)) => c@,
                _ => Seq::empty(),
            }
        } else {
            Seq::empty()
        },
        _ => Seq::empty(),
    }
}

/// The message texts of the output items, in order.
pub open spec fn output_text(items: Seq<JsonValue>) -> Seq<char>
    decreases items.len(),
{
    if items.len() == 0 {
        Seq::empty()
    } else {
        output_text(items.drop_last()) + output_item_text(items.last())
    }
}

pub open spec fn missing_output_message() -> Seq<char> {
    "model response did not include output"@
}

pub open spec fn missing_message_output_message() -> Seq<char> {
    "model response did not include a message in output"@
}

/// The text of a native LM Studio chat reply: the messages of its `output`,
/// joined; reasoning items are left out.
pub open spec fn native_content(reply: JsonValue) -> Result<Seq<char>, Seq<char>> {
    match json_get(reply, "output"@) {
        Some(JsonValue::Array(items)) => if output_text(items@).len() > 0 {
            Ok(output_text(items@))
        } else {
            Err(missing_message_output_message())
        },
        _ => Err(missing_output_message()),
    }
}

fn item_text(item: &JsonValue) -> (r: String)
    ensures
        r@ == output_item_text(*item),
{
    match get(item, "type") {
        Some(JsonValue::String(kind)) => {
            if crate::text::str_eq(kind.as_str(), "message") {
                match get(item, "content") {
                    Some(JsonValue::String(c)) => c.clone(),
                    _ => String::new(),
                }
            } else {
                String::new()
            }
        },
        _ => String::new(),
    }
}

pub fn extract_native_content(reply: &JsonValue) -> (r: Result<String, String>)
    ensures
        match r {
            Ok(t) => native_content(*reply) == Ok::<Seq<char>, Seq<char>>(t@),
            Err(e) => native_content(*reply) == Err::<Seq<char>, Seq<char>>(e@),
        },
{
    match get(reply, "output") {
        Some(JsonValue::Array(items)) => {
            let mut text = String::new();
            let mut i: usize = 0;
            while i < items.len()
                invariant
                    i <= items.len(),
                    text@ == output_text(items@.take(i as int)),
                decreases items.len() - i,
            {
                assert(items@.take(i + 1).drop_last() =~= items@.take(i as int));
                let piece = item_text(&items[i]);
                text.append(piece.as_str());
                i = i + 1;
            }
            assert(items@.take(items.len() as int) =~= items@);
            if chars_of(text.as_str()).len() > 0 {
                Ok(text)
            } else {
                Err(String::from_str("model response did not include a message in output"))
            }
        },
        _ => Err(String::from_str("model response did not include output")),
    }
}

/// The text of a model's reply, or why there is none: a reply whose HTTP
/// status is not a success is refused with the status and the body; LM
/// Studio's reply is read as a native chat reply, any other as a chat
/// completion.
pub open spec fn completion_result(
    provider: ModelProvider,
    endpoint: Seq<char>,
    status_success: bool,
    status_text: Seq<char>,
    body_text: Seq<char>,
    reply: JsonValue,
) -> Result<Seq<char>, Seq<char>> {
    if !status_success {
        Err("model endpoint "@ + endpoint + " returned "@ + status_text + ": "@ + body_text)
    } else {
        match provider {
            ModelProvider::LmStudio => native_content(reply),
            ModelProvider::OpenAiCompatible => chat_content(reply),
        }
    }
}

pub fn completion_text(
    provider: ModelProvider,
    endpoint: &str,
    status_success: bool,
    status_text: &str,
    body_text: &str,
    reply: &JsonValue,
) -> (r: Result<String, String>)
    ensures
        match r {
            Ok(t) => completion_result(provider, endpoint@, status_success, status_text@, body_text@, *reply)
                == Ok::<Seq<char>, Seq<char>>(t@),
            Err(e) => completion_result(provider, endpoint@, status_success, status_text@, body_text@, *reply)
                == Err::<Seq<char>, Seq<char>>(e@),
        },
{
    if !status_success {
        let mut e = String::from_str("model endpoint ");
        e.append(endpoint);
        e.append(" returned ");
        e.append(status_text);
        e.append(": ");
        e.append(body_text);
        return Err(e);
    }
    match provider {
        ModelProvider::LmStudio => extract_native_content(reply),
        ModelProvider::OpenAiCompatible => extract_chat_content(reply),
    }
}

} // verus!
