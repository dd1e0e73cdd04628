use ebpf_tracker::analysis::{
    analysis_dir, analysis_summary, authorization_header, bearer_credentials, build_user_prompt,
    chat_completions_url, resolve_endpoint, resolve_model, sample_event_lines, sanitize_name,
    trim_for_prompt, AnalyzeConfig, ModelProvider,
};
use ebpf_tracker::chat::{
    build_chat_request, completion_text, extract_native_content, lm_studio_chat_url,
    model_request_body, model_request_url,
};
use ebpf_tracker::json::{extract_chat_content, get, JsonValue};

#[test]
fn lm_studio_defaults_are_resolved() {
    let config = AnalyzeConfig::default();
    assert_eq!(
        resolve_endpoint(&config).expect("lm studio endpoint should default"),
        "http://127.0.0.1:1234/v1"
    );
    assert_eq!(
        resolve_model(&config).expect("lm studio model should default"),
        "qwen/qwen3.5-9b"
    );
}

#[test]
fn openai_compatible_requires_explicit_endpoint_and_model() {
    let config = AnalyzeConfig {
        provider: ModelProvider::OpenAiCompatible,
        ..AnalyzeConfig::default()
    };
    assert!(resolve_endpoint(&config).is_err());
    assert!(resolve_model(&config).is_err());
}

#[test]
fn chat_completion_url_appends_path_once() {
    assert_eq!(
        chat_completions_url("http://127.0.0.1:1234/v1"),
        "http://127.0.0.1:1234/v1/chat/completions"
    );
    assert_eq!(
        chat_completions_url("http://127.0.0.1:1234/v1/chat/completions"),
        "http://127.0.0.1:1234/v1/chat/completions"
    );
}

#[test]
fn sanitize_name_keeps_model_file_friendly() {
    assert_eq!(sanitize_name("qwen/qwen3.5-9b"), "qwen-qwen3.5-9b");
}

fn text(s: &str) -> JsonValue {
    JsonValue::String(s.to_string())
}

fn object(entries: Vec<(&str, JsonValue)>) -> JsonValue {
    JsonValue::Object(entries.into_iter().map(|(k, v)| (k.to_string(), v)).collect())
}

#[test]
fn extract_chat_content_reads_string_message() {
    let payload = object(vec![(
        "choices",
        JsonValue::Array(vec![object(vec![(
            "message",
            object(vec![("content", text("analysis text"))]),
        )])]),
    )]);
    assert_eq!(
        extract_chat_content(&payload).expect("content should be extracted"),
        "analysis text"
    );
}

fn lines_of(content: &str) -> Vec<String> {
    content.lines().map(|line| line.to_string()).collect()
}

#[test]
fn sample_event_lines_keeps_head_and_tail_without_duplication() {
    let sample = sample_event_lines(&lines_of("a\nb\nc\nd\ne\n"), 2, 2);
    assert_eq!(sample, "a\nb\nd\ne");
}

#[test]
fn sample_event_lines_keeps_all_lines_when_small() {
    let sample = sample_event_lines(&lines_of("a\nb\n"), 4, 4);
    assert_eq!(sample, "a\nb");
}

#[test]
fn sample_of_empty_events_is_empty() {
    assert_eq!(sample_event_lines(&Vec::new(), 12, 12), "");
}

#[test]
fn sample_with_overlapping_head_and_tail_keeps_each_line_once() {
    let sample = sample_event_lines(&lines_of("a\nb\nc\n"), 2, 2);
    assert_eq!(sample, "a\nb\nc");
}

#[test]
fn model_provider_names_read_back() {
    for provider in [ModelProvider::LmStudio, ModelProvider::OpenAiCompatible] {
        assert_eq!(ModelProvider::parse(provider.as_str()), Ok(provider));
    }
    assert_eq!(ModelProvider::parse("openai"), Ok(ModelProvider::OpenAiCompatible));
    assert_eq!(
        ModelProvider::parse("ollama"),
        Err("unsupported model provider: ollama".to_string())
    );
}

#[test]
fn given_endpoint_and_model_are_kept() {
    let config = AnalyzeConfig {
        provider: ModelProvider::OpenAiCompatible,
        endpoint: Some("https://models.example/v1".to_string()),
        model: Some("gpt".to_string()),
        ..AnalyzeConfig::default()
    };
    assert_eq!(resolve_endpoint(&config), Ok("https://models.example/v1".to_string()));
    assert_eq!(resolve_model(&config), Ok("gpt".to_string()));
    let missing = AnalyzeConfig {
        provider: ModelProvider::OpenAiCompatible,
        ..AnalyzeConfig::default()
    };
    assert_eq!(
        resolve_endpoint(&missing),
        Err("openai-compatible provider requires --endpoint".to_string())
    );
    assert_eq!(
        resolve_model(&missing),
        Err("openai-compatible provider requires --model".to_string())
    );
}

#[test]
fn completions_url_drops_trailing_slashes() {
    assert_eq!(
        chat_completions_url("http://host/v1//"),
        "http://host/v1/chat/completions"
    );
    assert_eq!(
        chat_completions_url("http://host/v1/chat/completions/"),
        "http://host/v1/chat/completions"
    );
    let once = chat_completions_url("http://host/api");
    assert_eq!(chat_completions_url(&once), once);
}

#[test]
fn sanitize_collapses_and_trims_dashes() {
    assert_eq!(sanitize_name("  a//b  "), "a-b");
    assert_eq!(sanitize_name("---"), "");
    assert_eq!(sanitize_name("Model_v1.2"), "Model_v1.2");
    assert_eq!(sanitize_name("é@x"), "x");
}

#[test]
fn long_prompt_sections_are_cut() {
    assert_eq!(trim_for_prompt("abc", 3), "abc");
    assert_eq!(trim_for_prompt("abcdef", 3), "abc\n... truncated ...");
    assert_eq!(trim_for_prompt("ééé", 2), "éé\n... truncated ...");
}

#[test]
fn user_prompt_holds_each_section_trimmed() {
    let prompt = build_user_prompt(
        "runs/r1",
        " {\"run\":1}\n",
        "{}",
        "[]",
        "{\"a\":1}",
        "x\ny\n",
        Some("be brief\n"),
    );
    let expected = "Dataset run directory: runs/r1\n\nRun metadata:\n```json\n{\"run\":1}\n```\n\nDerived features:\n```json\n{}\n```\n\nProcesses:\n```json\n[]\n```\n\nAggregates:\n```json\n{\"a\":1}\n```\n\nEvent samples:\n```jsonl\nx\ny\n```\nAdditional instructions:\nbe brief";
    assert_eq!(prompt, expected);
    let without = build_user_prompt("d", "", "", "", "", "", None);
    assert!(without.ends_with("```jsonl\n\n```\n"));
}

#[test]
fn analysis_files_are_named_after_provider_and_model() {
    assert_eq!(analysis_dir("runs/r1"), "runs/r1/analysis");
    assert_eq!(analysis_dir("runs/r1/"), "runs/r1/analysis");
    let summary = analysis_summary("runs/r1", ModelProvider::LmStudio, "qwen/qwen3.5-9b");
    assert_eq!(summary.provider, ModelProvider::LmStudio);
    assert_eq!(summary.model, "qwen/qwen3.5-9b");
    assert_eq!(
        summary.output_markdown,
        "runs/r1/analysis/lm-studio--qwen-qwen3.5-9b.md"
    );
    assert_eq!(
        summary.output_json,
        "runs/r1/analysis/lm-studio--qwen-qwen3.5-9b.json"
    );
}

#[test]
fn authorization_header_carries_trimmed_key() {
    assert_eq!(bearer_credentials("  secret \n"), "Bearer secret");
    let header = authorization_header(" secret ").expect("plain key is a valid header");
    assert_eq!(header.text(), "Bearer secret");
    assert_eq!(header.into_value().to_str().expect("ascii header"), "Bearer secret");
    assert_eq!(
        authorization_header("sec\u{7f}ret").err(),
        Some("invalid API key header: failed to parse header value".to_string())
    );
    assert!(authorization_header("a\tb").is_ok());
}

#[test]
fn chat_content_reads_text_parts() {
    let parts = JsonValue::Array(vec![
        object(vec![("type", text("text")), ("text", text("first "))]),
        object(vec![("type", text("image"))]),
        object(vec![("text", text("second"))]),
    ]);
    let payload = object(vec![(
        "choices",
        JsonValue::Array(vec![object(vec![("message", object(vec![("content", parts)]))])]),
    )]);
    assert_eq!(extract_chat_content(&payload), Ok("first second".to_string()));
}

#[test]
fn chat_content_errors_name_what_is_missing() {
    let no_choices = object(vec![("choices", JsonValue::Array(vec![]))]);
    assert_eq!(
        extract_chat_content(&no_choices),
        Err("model response did not include choices[0]".to_string())
    );
    let no_content = object(vec![(
        "choices",
        JsonValue::Array(vec![object(vec![("message", object(vec![]))])]),
    )]);
    assert_eq!(
        extract_chat_content(&no_content),
        Err("model response did not include message.content".to_string())
    );
    let number = object(vec![(
        "choices",
        JsonValue::Array(vec![object(vec![(
            "message",
            object(vec![("content", JsonValue::Number("3".to_string()))]),
        )])]),
    )]);
    assert_eq!(
        extract_chat_content(&number),
        Err("model response content was not a supported text format".to_string())
    );
    let empty_parts = object(vec![(
        "choices",
        JsonValue::Array(vec![object(vec![(
            "message",
            object(vec![("content", JsonValue::Array(vec![object(vec![])]))]),
        )])]),
    )]);
    assert_eq!(
        extract_chat_content(&empty_parts),
        Err("model response content was not a supported text format".to_string())
    );
}

#[test]
fn failed_status_is_reported_with_body() {
    let reply = JsonValue::Null;
    assert_eq!(
        completion_text(ModelProvider::OpenAiCompatible, "http://h/v1", false, "500 Internal Server Error", "{\"error\":1}", &reply),
        Err("model endpoint http://h/v1 returned 500 Internal Server Error: {\"error\":1}".to_string())
    );
    let ok = object(vec![(
        "choices",
        JsonValue::Array(vec![object(vec![("message", object(vec![("content", text("done"))]))])]),
    )]);
    assert_eq!(completion_text(ModelProvider::OpenAiCompatible, "e", true, "200 OK", "", &ok), Ok("done".to_string()));
}

#[test]
fn object_lookup_takes_the_named_member() {
    let value = object(vec![("a", text("1")), ("b", text("2"))]);
    match get(&value, "b") {
        Some(JsonValue::String(s)) => assert_eq!(s, "2"),
        other => panic!("unexpected {other:?}"),
    }
    assert!(get(&value, "c").is_none());
    assert!(get(&text("x"), "a").is_none());
}

#[test]
fn lm_studio_uses_the_native_chat_endpoint() {
    assert_eq!(
        lm_studio_chat_url("http://127.0.0.1:1234/v1"),
        "http://127.0.0.1:1234/api/v1/chat"
    );
    assert_eq!(lm_studio_chat_url("http://127.0.0.1:1234/"), "http://127.0.0.1:1234/api/v1/chat");
    assert_eq!(lm_studio_chat_url("http://h/api/v1/"), "http://h/api/v1/chat");
    assert_eq!(lm_studio_chat_url("http://h/api/v1/chat"), "http://h/api/v1/chat");
    let once = lm_studio_chat_url("http://h:1/v1");
    assert_eq!(lm_studio_chat_url(&once), once);
    assert_eq!(
        model_request_url(ModelProvider::LmStudio, "http://127.0.0.1:1234/v1"),
        "http://127.0.0.1:1234/api/v1/chat"
    );
    assert_eq!(
        model_request_url(ModelProvider::OpenAiCompatible, "http://127.0.0.1:1234/v1"),
        "http://127.0.0.1:1234/v1/chat/completions"
    );
}

fn member<'a>(value: &'a JsonValue, key: &str) -> &'a JsonValue {
    get(value, key).unwrap_or_else(|| panic!("missing {key}"))
}

fn as_text(value: &JsonValue) -> &str {
    match value {
        JsonValue::String(s) => s,
        other => panic!("not text: {other:?}"),
    }
}

#[test]
fn native_body_turns_reasoning_off() {
    let body = model_request_body(
        ModelProvider::LmStudio,
        "qwen/qwen3.5-9b",
        "sys",
        "user",
        JsonValue::Number("0.2".to_string()),
        Some(900),
    );
    assert_eq!(as_text(member(&body, "model")), "qwen/qwen3.5-9b");
    assert_eq!(as_text(member(&body, "system_prompt")), "sys");
    assert_eq!(as_text(member(&body, "input")), "user");
    assert_eq!(as_text(member(&body, "reasoning")), "off");
    assert!(matches!(member(&body, "temperature"), JsonValue::Number(t) if t == "0.2"));
    assert!(matches!(member(&body, "max_output_tokens"), JsonValue::Number(t) if t == "900"));
    assert!(get(&body, "messages").is_none());
    let unbounded =
        model_request_body(ModelProvider::LmStudio, "m", "s", "u", JsonValue::Null, None);
    assert!(get(&unbounded, "max_output_tokens").is_none());
}

#[test]
fn openai_body_carries_both_messages() {
    let body = model_request_body(
        ModelProvider::OpenAiCompatible,
        "gpt",
        "sys",
        "user",
        JsonValue::Number("0.2".to_string()),
        None,
    );
    assert_eq!(as_text(member(&body, "model")), "gpt");
    match member(&body, "messages") {
        JsonValue::Array(messages) => {
            assert_eq!(messages.len(), 2);
            assert_eq!(as_text(member(&messages[0], "role")), "system");
            assert_eq!(as_text(member(&messages[0], "content")), "sys");
            assert_eq!(as_text(member(&messages[1], "role")), "user");
            assert_eq!(as_text(member(&messages[1], "content")), "user");
        }
        other => panic!("unexpected {other:?}"),
    }
    assert!(matches!(member(&body, "max_tokens"), JsonValue::Null));
    assert!(get(&body, "reasoning").is_none());
}

#[test]
fn chat_request_carries_the_bearer_key() {
    let request = build_chat_request(
        ModelProvider::OpenAiCompatible,
        "http://h/v1",
        "m",
        Some(" key "),
        "s",
        "u",
        JsonValue::Null,
        Some(10),
    )
    .expect("valid request");
    assert_eq!(request.url, "http://h/v1/chat/completions");
    assert_eq!(request.authorization.expect("header").text(), "Bearer key");
    let keyless = build_chat_request(
        ModelProvider::LmStudio,
        "http://h/v1",
        "m",
        None,
        "s",
        "u",
        JsonValue::Null,
        None,
    )
    .expect("valid request");
    assert!(keyless.authorization.is_none());
    assert_eq!(keyless.url, "http://h/api/v1/chat");
    assert_eq!(
        build_chat_request(
            ModelProvider::LmStudio,
            "e",
            "m",
            Some("bad\u{7f}"),
            "s",
            "u",
            JsonValue::Null,
            None
        )
        .err(),
        Some("invalid API key header: failed to parse header value".to_string())
    );
}

#[test]
fn native_reply_keeps_only_message_output() {
    let reply = object(vec![(
        "output",
        JsonValue::Array(vec![
            object(vec![("type", text("reasoning")), ("content", text("thinking"))]),
            object(vec![("type", text("message")), ("content", text("## Summary"))]),
        ]),
    )]);
    assert_eq!(extract_native_content(&reply), Ok("## Summary".to_string()));
    assert_eq!(
        completion_text(ModelProvider::LmStudio, "e", true, "200 OK", "", &reply),
        Ok("## Summary".to_string())
    );
    let only_reasoning = object(vec![(
        "output",
        JsonValue::Array(vec![object(vec![("type", text("reasoning")), ("content", text("x"))])]),
    )]);
    assert_eq!(
        extract_native_content(&only_reasoning),
        Err("model response did not include a message in output".to_string())
    );
    assert_eq!(
        extract_native_content(&object(vec![])),
        Err("model response did not include output".to_string())
    );
}
