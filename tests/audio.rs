use pluely::audio::{
    after_fallback, after_primary, audio_settings, decode_audio_base64, fallback_target,
    interpret_attempt, parse_transcription_body, primary_target, strip_data_uri,
    transcription_form_fields, AttemptOutcome, TranscriptionStep,
};
use pluely::model::{ApiResponseConfig, UserAudioConfig, UserAudioHeader};

fn audio_config(fallback: bool, fallback_model: Option<&str>) -> UserAudioConfig {
    UserAudioConfig {
        url: "https://primary/t".to_string(),
        fallback_url: if fallback { Some("https://fallback/t".to_string()) } else { None },
        model: "whisper-1".to_string(),
        fallback_model: fallback_model.map(|m| m.to_string()),
        user_token: "tok-p".to_string(),
        fallback_user_token: if fallback { Some("tok-f".to_string()) } else { None },
        headers: Some(vec![
            UserAudioHeader { key: "  language ".to_string(), value: "en".to_string() },
            UserAudioHeader { key: "   ".to_string(), value: "dropped".to_string() },
            UserAudioHeader { key: "prompt".to_string(), value: "meeting".to_string() },
        ]),
    }
}

fn api_config(audio: Option<UserAudioConfig>) -> ApiResponseConfig {
    ApiResponseConfig {
        url: "https://chat".to_string(),
        user_token: "u".to_string(),
        model: "m".to_string(),
        body: String::new(),
        customer_id: None,
        customer_email: None,
        customer_name: None,
        license_key: "L".to_string(),
        instance_id: "I".to_string(),
        user_audio: audio,
        errors: None,
    }
}

#[test]
fn strip_removes_data_uri_header() {
    assert_eq!(strip_data_uri("  data:audio/wav;base64,QUJD \n"), "QUJD");
    assert_eq!(strip_data_uri("QUJD"), "QUJD");
    assert_eq!(strip_data_uri(" QUJD "), "QUJD");
    assert_eq!(strip_data_uri("a,b,c"), "b,c");
}

#[test]
fn strip_is_idempotent_without_prefix() {
    for x in ["QUJD", "  QUJD\t", "", "   "] {
        let once = strip_data_uri(x);
        assert_eq!(strip_data_uri(&once), once);
    }
}

#[test]
fn decode_accepts_prefixed_payload() {
    assert_eq!(decode_audio_base64("data:audio/wav;base64,QUJD").unwrap(), b"ABC".to_vec());
    assert_eq!(decode_audio_base64("QUJD").unwrap(), b"ABC".to_vec());
}

#[test]
fn decode_rejects_invalid_base64() {
    let e = decode_audio_base64("data:x,@@@").unwrap_err();
    assert!(e.starts_with("Failed to decode audio data: "), "{}", e);
}

#[test]
fn form_fields_trim_and_skip_empty_keys() {
    let cfg = audio_config(false, None);
    let fields = transcription_form_fields("whisper-1", &cfg.headers);
    assert_eq!(
        fields,
        vec![
            ("model".to_string(), "whisper-1".to_string()),
            ("language".to_string(), "en".to_string()),
            ("prompt".to_string(), "meeting".to_string()),
        ]
    );
    assert_eq!(transcription_form_fields("m", &None), vec![("model".to_string(), "m".to_string())]);
}

#[test]
fn body_parsing_is_tolerant() {
    assert_eq!(parse_transcription_body("{\"text\":\"a\"}").unwrap(), "a");
    assert_eq!(parse_transcription_body("{\"transcription\":\"b\"}").unwrap(), "b");
    assert_eq!(parse_transcription_body("{\"result\":\"c\",\"text\":5}").unwrap(), "c");
    assert_eq!(parse_transcription_body("{ \"other\": 1 }").unwrap(), "{\"other\":1}");
    assert_eq!(parse_transcription_body("plain words").unwrap(), "plain words");
    assert_eq!(
        parse_transcription_body("  \n").unwrap_err(),
        "Transcription response was empty"
    );
}

#[test]
fn attempt_errors_are_described() {
    assert_eq!(
        interpret_attempt(&AttemptOutcome::Rejected { status: 500, body: "oops".to_string() })
            .unwrap_err(),
        "Transcription request returned 500 Internal Server Error with body: oops"
    );
    assert_eq!(
        interpret_attempt(&AttemptOutcome::SendFailed("dns".to_string())).unwrap_err(),
        "Transcription request failed to send: dns"
    );
    assert_eq!(
        interpret_attempt(&AttemptOutcome::ReadFailed("eof".to_string())).unwrap_err(),
        "Failed to read transcription response: eof"
    );
}

#[test]
fn primary_failure_then_fallback_success() {
    let cfg = audio_config(true, None);
    let primary = interpret_attempt(&AttemptOutcome::Rejected {
        status: 500,
        body: "down".to_string(),
    });
    let primary_error = primary.clone().unwrap_err();
    let target = match after_primary(&cfg, primary) {
        TranscriptionStep::Attempt(t) => t,
        _ => panic!("expected one fallback attempt"),
    };
    assert_eq!(target.url, "https://fallback/t");
    assert_eq!(target.token, "tok-f");
    assert_eq!(target.model, "whisper-1");
    let fallback = interpret_attempt(&AttemptOutcome::Body("{\"text\":\"hello\"}".to_string()));
    match after_fallback(&primary_error, fallback) {
        TranscriptionStep::Done(r) => {
            assert!(r.success);
            assert_eq!(r.transcription.as_deref(), Some("hello"));
            assert_eq!(r.error, None);
        }
        _ => panic!("expected success"),
    }
}

#[test]
fn fallback_uses_its_own_model_when_set() {
    let cfg = audio_config(true, Some("whisper-large"));
    let t = fallback_target(&cfg).unwrap();
    assert_eq!(t.model, "whisper-large");
    let p = primary_target(&cfg);
    assert_eq!((p.url.as_str(), p.token.as_str(), p.model.as_str()), ("https://primary/t", "tok-p", "whisper-1"));
}

#[test]
fn fallback_needs_url_and_token() {
    let mut cfg = audio_config(true, None);
    cfg.fallback_user_token = None;
    assert!(fallback_target(&cfg).is_none());
    match after_primary(&cfg, Err("p".to_string())) {
        TranscriptionStep::Failed { message, report } => {
            assert_eq!(message, "Transcription failed. Please try again.");
            assert_eq!(report, "Primary: p | Fallback: fallback not configured");
        }
        _ => panic!("expected failure"),
    }
}

#[test]
fn both_tiers_failing_reports_both() {
    match after_fallback("p-err", Err("f-err".to_string())) {
        TranscriptionStep::Failed { message, report } => {
            assert_eq!(message, "Transcription failed. Please try again.");
            assert_eq!(report, "Primary: p-err | Fallback: f-err");
        }
        _ => panic!("expected failure"),
    }
}

#[test]
fn primary_success_finishes() {
    let cfg = audio_config(true, None);
    match after_primary(&cfg, Ok("done".to_string())) {
        TranscriptionStep::Done(r) => assert_eq!(r.transcription.as_deref(), Some("done")),
        _ => panic!("expected success"),
    }
}

#[test]
fn missing_audio_config_is_reported() {
    let e = audio_settings(&api_config(None)).unwrap_err();
    assert_eq!(
        e,
        "Audio transcription is not configured for this workspace. Please contact support."
    );
    let cfg = api_config(Some(audio_config(false, None)));
    let settings = audio_settings(&cfg).unwrap();
    assert_eq!(primary_target(settings).url, "https://primary/t");
}
