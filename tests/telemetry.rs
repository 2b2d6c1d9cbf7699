use pluely::model::Model;
use pluely::telemetry::{activity_payload, beacon_url, error_payload, Identity, TelemetryEvent};
use serde_json::Value;

fn identity(machine: &str, stored: Option<Model>) -> Identity {
    Identity {
        license_key: "LIC".to_string(),
        instance_id: "INST".to_string(),
        machine_id: machine.to_string(),
        app_version: "1.2.3".to_string(),
        stored_model: stored,
    }
}

fn stored() -> Model {
    Model {
        provider: "anthropic".to_string(),
        name: "n".to_string(),
        id: "i".to_string(),
        model: "stored-model".to_string(),
        description: "d".to_string(),
        modality: "text".to_string(),
        is_available: true,
    }
}

#[test]
fn activity_body_carries_identity_model_and_usage() {
    let p = activity_payload(&identity("mid", None), "cfg-model", &Some("{\"t\":3}".to_string()))
        .unwrap();
    let v: Value = serde_json::from_str(&p).unwrap();
    assert_eq!(v["license"], "LIC");
    assert_eq!(v["instance"], "INST");
    assert_eq!(v["machine_id"], "mid");
    assert_eq!(v["app_version"], "1.2.3");
    assert_eq!(v["ai_model"], "cfg-model");
    assert_eq!(v["usage"]["t"], 3);
    let q = activity_payload(&identity("mid", Some(stored())), "cfg-model", &None).unwrap();
    let w: Value = serde_json::from_str(&q).unwrap();
    assert_eq!(w["ai_model"], "stored-model");
    assert!(w.get("usage").is_none());
}

#[test]
fn no_device_id_no_beacon() {
    assert!(activity_payload(&identity("", None), "m", &None).is_none());
    assert!(error_payload(&identity("", None), "e", "/api/chat", &None, &None).is_none());
}

#[test]
fn error_body_prefers_given_model_and_provider() {
    let p = error_payload(
        &identity("mid", Some(stored())),
        "raw \"detail\"",
        "/api/chat",
        &Some("given".to_string()),
        &None,
    )
    .unwrap();
    let v: Value = serde_json::from_str(&p).unwrap();
    assert_eq!(v["error_message"], "raw \"detail\"");
    assert_eq!(v["endpoint"], "/api/chat");
    assert_eq!(v["model"], "given");
    assert_eq!(v["provider"], "anthropic");
    assert_eq!(v["license_key"], "LIC");
    let q = error_payload(&identity("mid", None), "e", "/api/transcribe", &None, &None).unwrap();
    let w: Value = serde_json::from_str(&q).unwrap();
    assert_eq!(w["model"], "");
    assert_eq!(w["provider"], "");
}

#[test]
fn beacon_url_trims_trailing_slashes() {
    assert_eq!(beacon_url("https://b.example//", "/api/activity"), "https://b.example/api/activity");
    assert_eq!(beacon_url("https://b.example", "/api/error"), "https://b.example/api/error");
}

#[test]
fn failure_events_name_their_endpoint() {
    match pluely::chat::chat_error_event("raw".to_string(), Some("m".to_string()), None) {
        TelemetryEvent::Error { endpoint, message, model, provider } => {
            assert_eq!(endpoint, "/api/chat");
            assert_eq!(message, "raw");
            assert_eq!(model.as_deref(), Some("m"));
            assert_eq!(provider, None);
        }
        _ => panic!("expected an error event"),
    }
    match pluely::audio::transcription_error_event("r".to_string(), None, None) {
        TelemetryEvent::Error { endpoint, .. } => assert_eq!(endpoint, "/api/transcribe"),
        _ => panic!("expected an error event"),
    }
    match pluely::chat::chat_activity_event("cfg", Some("{}".to_string())) {
        TelemetryEvent::Activity { ai_model, usage } => {
            assert_eq!(ai_model, "cfg");
            assert_eq!(usage.as_deref(), Some("{}"));
        }
        _ => panic!("expected an activity event"),
    }
}
