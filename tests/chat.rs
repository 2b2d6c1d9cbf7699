use pluely::chat::{
    build_chat_body, build_chat_messages, classify_send_error, classify_status_error,
    classify_stream_error,
};
use pluely::classify::ApiConfigError;
use serde_json::Value;

fn messages() -> Vec<String> {
    build_chat_messages("hello", None, None, &Vec::new())
}

#[test]
fn extra_body_adds_members_and_keeps_messages() {
    let msgs = messages();
    let body = build_chat_body("gpt-x", &msgs, "{\"temperature\":0.2}");
    let v: Value = serde_json::from_str(&body).unwrap();
    assert_eq!(v["model"], "gpt-x");
    assert_eq!(v["stream"], true);
    assert_eq!(v["temperature"], 0.2);
    assert!(v["messages"].is_array());
    assert_eq!(v["messages"].as_array().unwrap().len(), 1);
}

#[test]
fn extra_body_overrides_stream() {
    let msgs = messages();
    let body = build_chat_body("gpt-x", &msgs, "{\"stream\": false}");
    let v: Value = serde_json::from_str(&body).unwrap();
    assert_eq!(v["stream"], false);
    assert!(v["messages"].is_array());
    assert_eq!(v["model"], "gpt-x");
}

#[test]
fn extra_body_may_override_model_and_messages() {
    let msgs = messages();
    let body = build_chat_body("gpt-x", &msgs, "{\"model\":\"other\",\"messages\":[]}");
    let v: Value = serde_json::from_str(&body).unwrap();
    assert_eq!(v["model"], "other");
    assert_eq!(v["messages"], serde_json::from_str::<Value>("[]").unwrap());
}

#[test]
fn body_without_extra_is_exact() {
    let msgs = vec!["{\"role\":\"user\",\"content\":\"x\"}".to_string()];
    let body = build_chat_body("m", &msgs, "");
    assert_eq!(
        body,
        "{\"model\":\"m\",\"messages\":[{\"role\":\"user\",\"content\":\"x\"}],\"stream\":true}"
    );
    assert_eq!(build_chat_body("m", &msgs, "[1,2]"), body);
    assert_eq!(build_chat_body("m", &msgs, "not json"), body);
}

#[test]
fn message_list_order_and_shape() {
    let images = vec!["AAA".to_string(), "BBB".to_string()];
    let msgs = build_chat_messages(
        "what is \"this\"?",
        Some("be brief".to_string()),
        Some("[{\"role\":\"assistant\",\"content\":\"yo\"}]".to_string()),
        &images,
    );
    assert_eq!(msgs.len(), 3);
    assert_eq!(msgs[0], "{\"role\":\"system\",\"content\":\"be brief\"}");
    let hist: Value = serde_json::from_str(&msgs[1]).unwrap();
    assert_eq!(hist["role"], "assistant");
    assert_eq!(hist["content"], "yo");
    let user: Value = serde_json::from_str(&msgs[2]).unwrap();
    assert_eq!(user["role"], "user");
    let content = user["content"].as_array().unwrap();
    assert_eq!(content.len(), 3);
    assert_eq!(content[0]["type"], "text");
    assert_eq!(content[0]["text"], "what is \"this\"?");
    assert_eq!(content[1]["type"], "image_url");
    assert_eq!(content[1]["image_url"]["url"], "data:image/jpeg;base64,AAA");
    assert_eq!(content[2]["image_url"]["url"], "data:image/jpeg;base64,BBB");
}

#[test]
fn unparsable_history_is_dropped() {
    let msgs = build_chat_messages("hi", None, Some("{not an array".to_string()), &Vec::new());
    assert_eq!(msgs.len(), 1);
    assert_eq!(
        msgs[0],
        "{\"role\":\"user\",\"content\":[{\"type\":\"text\",\"text\":\"hi\"}]}"
    );
}

fn rules() -> Vec<ApiConfigError> {
    vec![
        ApiConfigError::new("example.com".to_string(), "provider unreachable".to_string()),
        ApiConfigError::new("quota".to_string(), "quota used up".to_string()),
        ApiConfigError::new("Too Many".to_string(), "slow down".to_string()),
        ApiConfigError::new("".to_string(), "try again".to_string()),
    ]
}

#[test]
fn send_error_matches_on_target_url() {
    let f = classify_send_error(&rules(), "connection reset", "https://api.example.com/v1/chat");
    assert_eq!(f.message, "provider unreachable");
    assert_eq!(f.report, "connection reset");
    let g = classify_send_error(&rules(), "connection reset", "::not a url::");
    assert_eq!(g.message, "try again");
}

#[test]
fn status_error_matches_on_status_and_fields() {
    let f = classify_status_error(&rules(), 429, "{\"error\":\"quota\"}");
    assert_eq!(f.message, "quota used up");
    assert_eq!(f.report, "429 Too Many Requests: {\"error\":\"quota\"}");
    let g = classify_status_error(&rules(), 429, "busy");
    assert_eq!(g.message, "slow down");
    let h = classify_status_error(&rules(), 500, "{\"message\":\"internal\"}");
    assert_eq!(h.message, "try again");
    assert_eq!(h.report, "500 Internal Server Error: {\"message\":\"internal\"}");
}

#[test]
fn stream_error_is_classified() {
    let f = classify_stream_error(&rules(), "quota exceeded mid-stream");
    assert_eq!(f.message, "quota used up");
    assert_eq!(f.report, "quota exceeded mid-stream");
    let g = classify_stream_error(&[], "eof");
    assert_eq!(
        g.message,
        "Something went wrong. Please try switching to a different model or contact support."
    );
}

#[test]
fn send_error_matches_on_normalised_url() {
    let rules = vec![
        ApiConfigError::new("https://example.com/".to_string(), "provider unreachable".to_string()),
        ApiConfigError::new("".to_string(), "try again".to_string()),
    ];
    let f = classify_send_error(&rules, "connection reset", "HTTPS://Example.COM");
    assert_eq!(f.message, "provider unreachable");
}
