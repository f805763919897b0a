use voice_assistant::chat::{
    build_chat_request, completion_has_empty_choices, get_field, reply_from_completion,
    should_retry, JsonValue,
};
use voice_assistant::LlmConfig;

fn obj(members: Vec<(&str, JsonValue)>) -> JsonValue {
    JsonValue::Object(members.into_iter().map(|(k, v)| (k.to_string(), v)).collect())
}

fn text(s: &str) -> JsonValue {
    JsonValue::Str(s.to_string())
}

fn completion(message: JsonValue) -> JsonValue {
    obj(vec![
        ("id", text("chatcmpl-1")),
        ("choices", JsonValue::Array(vec![obj(vec![("index", JsonValue::Number("0".to_string())), ("message", message)])])),
    ])
}

fn llm(base_url: &str) -> LlmConfig {
    LlmConfig {
        provider: "local".to_string(),
        base_url: base_url.to_string(),
        model: "google/gemma-4-e2b".to_string(),
        api_key: "lm-studio".to_string(),
    }
}

#[test]
fn request_goes_to_chat_completions_without_double_slash() {
    let req = build_chat_request(&llm("http://127.0.0.1:1234/v1/"), "hi");
    assert_eq!(req.url, "http://127.0.0.1:1234/v1/chat/completions");
    let req = build_chat_request(&llm("http://127.0.0.1:1234/v1"), "hi");
    assert_eq!(req.url, "http://127.0.0.1:1234/v1/chat/completions");
}

#[test]
fn request_carries_bearer_key() {
    let req = build_chat_request(&llm("http://h/v1"), "hi");
    assert_eq!(req.authorization, "Bearer lm-studio");
}

#[test]
fn request_body_is_the_json_document() {
    let req = build_chat_request(&llm("http://h/v1"), "say \"hi\"\n");
    assert_eq!(
        req.body,
        "{\"max_tokens\":2048,\"messages\":[{\"content\":\"say \\\"hi\\\"\\n\",\"role\":\"user\"}],\"model\":\"google/gemma-4-e2b\",\"stream\":false}"
    );
    let parsed: serde_json::Value = serde_json::from_str(&req.body).unwrap();
    assert_eq!(parsed["messages"][0]["content"], "say \"hi\"\n");
    assert_eq!(parsed["max_tokens"], 2048);
    assert_eq!(parsed["stream"], false);
}

#[test]
fn request_body_matches_serde_json_value() {
    let req = build_chat_request(&llm("http://h/v1"), "你好");
    let mut message = serde_json::Map::new();
    message.insert("role".to_string(), serde_json::Value::from("user"));
    message.insert("content".to_string(), serde_json::Value::from("你好"));
    let mut body = serde_json::Map::new();
    body.insert("model".to_string(), serde_json::Value::from("google/gemma-4-e2b"));
    body.insert("messages".to_string(), serde_json::Value::Array(vec![serde_json::Value::Object(message)]));
    body.insert("max_tokens".to_string(), serde_json::Value::from(2048));
    body.insert("stream".to_string(), serde_json::Value::from(false));
    assert_eq!(req.body, serde_json::Value::Object(body).to_string());
}

#[test]
fn reply_is_the_trimmed_content() {
    let data = completion(obj(vec![("role", text("assistant")), ("content", text("  Hello there.\n"))]));
    assert_eq!(reply_from_completion(&data), Ok("Hello there.".to_string()));
}

#[test]
fn reply_falls_back_to_reasoning_content() {
    let data = completion(obj(vec![("content", JsonValue::Null), ("reasoning_content", text("Because."))]));
    assert_eq!(reply_from_completion(&data), Ok("Because.".to_string()));
}

#[test]
fn reply_is_empty_without_any_text() {
    let data = completion(obj(vec![("content", JsonValue::Number("3".to_string()))]));
    assert_eq!(reply_from_completion(&data), Ok(String::new()));
    let data = completion(JsonValue::Null);
    assert_eq!(reply_from_completion(&data), Ok(String::new()));
}

#[test]
fn reply_keeps_only_the_text_after_the_last_thinking_marker() {
    let data = completion(obj(vec![(
        "content",
        text("Thinking Process: first\nThinking Process: second\n\nThe answer is 4. "),
    )]));
    assert_eq!(reply_from_completion(&data), Ok("second\n\nThe answer is 4.".to_string()));
}

#[test]
fn reply_without_choices_is_an_error() {
    let data = obj(vec![("error", text("model not loaded"))]);
    assert_eq!(reply_from_completion(&data), Err("no choices".to_string()));
    let data = obj(vec![("choices", text("none"))]);
    assert_eq!(reply_from_completion(&data), Err("no choices".to_string()));
    assert_eq!(reply_from_completion(&JsonValue::Array(vec![])), Err("no choices".to_string()));
}

#[test]
fn empty_choices_are_detected() {
    assert!(completion_has_empty_choices(&obj(vec![("choices", JsonValue::Array(vec![]))])));
    assert!(!completion_has_empty_choices(&obj(vec![("choices", text("x"))])));
    assert!(!completion_has_empty_choices(&completion(JsonValue::Null)));
}

#[test]
fn field_lookup_behaves_like_value_indexing() {
    let v = obj(vec![("a", text("1")), ("b", JsonValue::Bool(true))]);
    assert!(matches!(get_field(&v, &"b".to_string()), Some(JsonValue::Bool(true))));
    assert!(get_field(&v, &"c".to_string()).is_none());
    assert!(get_field(&text("a"), &"a".to_string()).is_none());
}

#[test]
fn retry_only_on_502_and_at_most_three_requests() {
    assert!(should_retry(502, 1));
    assert!(should_retry(502, 2));
    assert!(!should_retry(502, 3));
    assert!(!should_retry(200, 1));
    assert!(!should_retry(500, 1));
    let mut attempts = 0u32;
    loop {
        attempts += 1;
        if should_retry(502, attempts) {
            continue;
        }
        break;
    }
    assert_eq!(attempts, 3);
}

fn body_reply(body: &str) -> Option<Result<String, String>> {
    match voice_assistant::chat::reply_from_body(body) {
        voice_assistant::chat::BodyReply::Reply(r) => Some(r),
        _ => None,
    }
}

#[test]
fn body_reply_reads_the_response_document() {
    let body = r#"{"id":"x","choices":[{"index":0,"message":{"role":"assistant","content":"  四。 "}}]}"#;
    assert_eq!(body_reply(body), Some(Ok("四。".to_string())));
    let body = r#"{"choices":[{"message":{"content":null,"reasoning_content":"Thinking Process: hmm Thinking Process: Done"}}]}"#;
    assert_eq!(body_reply(body), Some(Ok("Done".to_string())));
    assert_eq!(body_reply(r#"{"error":{"message":"busy"}}"#), Some(Err("no choices".to_string())));
}

#[test]
fn body_that_is_not_json_gives_the_parse_error() {
    let body = "<html>502 Bad Gateway</html>";
    let e = serde_json::from_str::<serde_json::Value>(body).unwrap_err();
    assert_eq!(body_reply(body), Some(Err(format!("JSON parse error: {} — body: {}", e, body))));
}

#[test]
fn parse_error_quotes_at_most_300_bytes() {
    let body = "x".repeat(500);
    let e = serde_json::from_str::<serde_json::Value>(&body).unwrap_err();
    assert_eq!(body_reply(&body), Some(Err(format!("JSON parse error: {} — body: {}", e, &body[..300]))));
}

#[test]
fn parse_error_cut_inside_a_character_is_told_apart() {
    let body = format!("{}{}", "x".repeat(299), "好好");
    assert!(matches!(
        voice_assistant::chat::reply_from_body(&body),
        voice_assistant::chat::BodyReply::CutInsideChar
    ));
    let body = format!("{}{}", "x".repeat(298), "好好");
    assert!(body_reply(&body).is_none());
    let body = format!("{}{}", "x".repeat(297), "好好");
    assert!(body_reply(&body).is_some());
}

#[test]
fn body_with_empty_choices_is_told_apart() {
    assert!(matches!(
        voice_assistant::chat::reply_from_body(r#"{"choices":[]}"#),
        voice_assistant::chat::BodyReply::EmptyChoices
    ));
}

#[test]
fn request_body_escapes_like_serde_json() {
    let mut all = String::new();
    for u in 0u32..0x90 {
        if let Some(c) = char::from_u32(u) {
            all.push(c);
        }
    }
    all.push_str("你好\u{2028}");
    let req = build_chat_request(&llm("http://h/v1"), &all);
    let expected = format!(
        "{{\"max_tokens\":2048,\"messages\":[{{\"content\":{},\"role\":\"user\"}}],\"model\":\"google/gemma-4-e2b\",\"stream\":false}}",
        serde_json::to_string(&all).unwrap()
    );
    assert_eq!(req.body, expected);
    let req = build_chat_request(&llm("http://h/v1"), "\u{1}\u{1f}\u{8}\u{c}\t");
    assert!(req.body.contains("\"\\u0001\\u001f\\b\\f\\t\""));
}
