use pluely::config::{
    error_detail, error_detail_message_first, resolve_config_request, server_error_message,
    transport_error_message, ConfigError, Credentials,
};

fn creds() -> Option<Credentials> {
    Some(Credentials {
        license_key: "LIC".to_string(),
        instance_id: "INST".to_string(),
        selected_model: None,
    })
}

#[test]
fn missing_credentials_fail_without_request() {
    let r = resolve_config_request(&None, "https://b", "key", "mid", &None, &None);
    assert!(matches!(r, Err(ConfigError::NotAuthenticated)));
    assert_eq!(
        ConfigError::NotAuthenticated.message(),
        "No license found. Please activate your license first."
    );
}

#[test]
fn request_headers_in_order() {
    let req = match resolve_config_request(
        &creds(),
        "https://b",
        "key",
        "mid",
        &Some("openai".to_string()),
        &Some("gpt".to_string()),
    ) {
        Ok(r) => r,
        Err(_) => panic!("expected a request"),
    };
    assert_eq!(req.url, "https://b/api/response");
    let h: Vec<(&str, &str)> = req.headers.iter().map(|(k, v)| (k.as_str(), v.as_str())).collect();
    assert_eq!(
        h,
        vec![
            ("Content-Type", "application/json"),
            ("Authorization", "Bearer key"),
            ("license_key", "LIC"),
            ("instance", "INST"),
            ("machine_id", "mid"),
            ("provider", "openai"),
            ("model", "gpt"),
        ]
    );
    let bare = match resolve_config_request(&creds(), "e", "k", "m", &None, &None) {
        Ok(r) => r,
        Err(_) => panic!("expected a request"),
    };
    assert_eq!(bare.headers.len(), 5);
}

#[test]
fn transport_error_drops_url_part() {
    assert_eq!(
        transport_error_message(
            "Failed to fetch API config",
            "error sending request for url (https://b/api/response)"
        ),
        "Failed to fetch API config: error sending request"
    );
    assert_eq!(
        transport_error_message("Failed to fetch API config", "timed out"),
        "Failed to fetch API config: timed out"
    );
}

#[test]
fn server_error_prefers_error_field() {
    assert_eq!(error_detail("{\"error\":\"bad key\",\"message\":\"m\"}"), "bad key");
    assert_eq!(error_detail("{\"message\":\"m\"}"), "m");
    assert_eq!(error_detail("oops"), "oops");
    assert_eq!(error_detail_message_first("{\"error\":\"e\",\"message\":\"m\"}"), "m");
    assert_eq!(server_error_message(401, "bad key"), "Server error (401 Unauthorized): bad key");
    let e = ConfigError::FetchFailed { status: 403, detail: "no".to_string() };
    assert_eq!(e.message(), "Server error (403 Forbidden): no");
}

#[test]
fn stored_credentials_need_key_and_instance() {
    assert_eq!(
        pluely::config::credentials_from_storage(None, Some("i".to_string()), None).unwrap_err(),
        "License key not found"
    );
    assert_eq!(
        pluely::config::credentials_from_storage(Some("l".to_string()), None, None).unwrap_err(),
        "Instance ID not found"
    );
    let c = pluely::config::credentials_from_storage(Some("l".to_string()), Some("i".to_string()), None)
        .unwrap();
    assert_eq!((c.license_key.as_str(), c.instance_id.as_str()), ("l", "i"));
}

#[test]
fn backend_requests_are_shaped() {
    let m = pluely::config::models_request("https://b", "k");
    assert_eq!(m.url, "https://b/api/models");
    assert_eq!(m.headers[1], ("Authorization".to_string(), "Bearer k".to_string()));
    let c = creds().unwrap();
    let p = pluely::config::system_prompt_request("https://b", "k", &c, "mid", "1.0", "say \"hi\"");
    assert_eq!(p.url, "https://b/api/prompt");
    assert_eq!(p.headers.len(), 6);
    assert_eq!(p.body.as_deref(), Some("{\"user_prompt\":\"say \\\"hi\\\"\"}"));
    let a = pluely::config::activity_request("https://b/", "k", &c, "mid", "1.0").unwrap();
    assert_eq!(a.url, "https://b/api/activity");
    assert_eq!(a.headers[2], ("instance_name".to_string(), "INST".to_string()));
    assert_eq!(
        pluely::config::activity_request("https://b", "k", &c, "", "1.0").unwrap_err(),
        "Machine identifier unavailable"
    );
}
