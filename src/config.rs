//! Resolving the per-call configuration: the request to the backend and
//! the messages for its failures.
use vstd::prelude::*;
use crate::http::{status_line, status_line_of};
use crate::json::{json_string_at, json_string_literal, string_at, string_literal};
use crate::jsontext::{member_views, object_of, object_text};
use crate::telemetry::{beacon_url, trim_slashes};
use crate::model::Model;
use crate::text::{chars_of, contains, find_seq, occurs_at};

verus! {

broadcast use vstd::string::group_string_axioms;

/// What the credential store holds for this installation.
#[derive(Debug)]
pub struct Credentials {
    pub license_key: String,
    pub instance_id: String,
    pub selected_model: Option<Model>,
}

/// A request to one of the backend's own endpoints.
#[derive(Debug)]
pub struct BackendRequest {
    pub url: String,
    pub headers: Vec<(String, String)>,
    /// JSON text, when the request has a body.
    pub body: Option<String>,
}

/// Why no configuration could be had.
#[derive(Debug)]
pub enum ConfigError {
    /// No stored credentials; nothing was sent.
    NotAuthenticated,
    /// The request could not be sent; the text is ready to show.
    Transport(String),
    /// The backend answered with a non-success status.
    FetchFailed { status: u16, detail: String },
    /// The answer could not be read as a configuration.
    Decode(String),
}

pub open spec fn header_views(v: Seq<(String, String)>) -> Seq<(Seq<char>, Seq<char>)> {
    v.map_values(|e: (String, String)| (e.0@, e.1@))
}

/// The headers of the configuration request, in order; provider and model
/// only when given.
pub open spec fn config_headers(
    access_key: Seq<char>,
    license_key: Seq<char>,
    instance_id: Seq<char>,
    machine_id: Seq<char>,
    provider: Option<Seq<char>>,
    model: Option<Seq<char>>,
) -> Seq<(Seq<char>, Seq<char>)> {
    seq![
        ("Content-Type"@, "application/json"@),
        ("Authorization"@, "Bearer "@ + access_key),
        ("license_key"@, license_key),
        ("instance"@, instance_id),
        ("machine_id"@, machine_id),
    ] + (match provider {
        Some(p) => seq![("provider"@, p)],
        None => seq![],
    }) + match model {
        Some(m) => seq![("model"@, m)],
        None => seq![],
    }
}

fn pair(k: &str, v: &str) -> (r: (String, String))
    ensures
        r.0@ == k@,
        r.1@ == v@,
{
    (String::from_str(k), String::from_str(v))
}

/// The GET request for the configuration of one call. Without credentials it
/// fails at once and nothing is to be sent.
pub fn resolve_config_request(
    credentials: &Option<Credentials>,
    app_endpoint: &str,
    access_key: &str,
    machine_id: &str,
    provider: &Option<String>,
    model: &Option<String>,
) -> (r: Result<BackendRequest, ConfigError>)
    ensures
        match credentials {
            None => r matches Err(ConfigError::NotAuthenticated),
            Some(c) => match r {
                Ok(req) => req.url@ == app_endpoint@ + "/api/response"@ && req.body is None && header_views(req.headers@)
                    == config_headers(
                    access_key@,
                    c.license_key@,
                    c.instance_id@,
                    machine_id@,
                    crate::text::opt_view(*provider),
                    crate::text::opt_view(*model),
                ),
                Err(_) => false,
            },
        },
{
    match credentials {
        None => Err(ConfigError::NotAuthenticated),
        Some(c) => {
            let mut url = String::from_str(app_endpoint);
            url.append("/api/response");
            let mut bearer = String::from_str("Bearer ");
            bearer.append(access_key);
            let mut headers: Vec<(String, String)> = Vec::new();
            headers.push(pair("Content-Type", "application/json"));
            headers.push((String::from_str("Authorization"), bearer));
            headers.push(pair("license_key", c.license_key.as_str()));
            headers.push(pair("instance", c.instance_id.as_str()));
            headers.push(pair("machine_id", machine_id));
            let ghost base = header_views(headers@);
            match provider {
                Some(p) => headers.push(pair("provider", p.as_str())),
                None => {},
            }
            let ghost mid = header_views(headers@);
            match model {
                Some(m) => headers.push(pair("model", m.as_str())),
                None => {},
            }
            assert(header_views(headers@) =~= config_headers(
                access_key@,
                c.license_key@,
                c.instance_id@,
                machine_id@,
                crate::text::opt_view(*provider),
                crate::text::opt_view(*model),
            ));
            Ok(BackendRequest { url, headers, body: None })
        },
    }
}

/// The stored credentials, once both the license key and the instance id
/// are present.
pub fn credentials_from_storage(
    license_key: Option<String>,
    instance_id: Option<String>,
    selected_model: Option<Model>,
) -> (r: Result<Credentials, String>)
    ensures
        license_key is None ==> (r matches Err(e) && e@ == "License key not found"@),
        license_key is Some && instance_id is None ==> (r matches Err(e) && e@
            == "Instance ID not found"@),
        license_key matches Some(l) ==> (instance_id matches Some(i) ==> (r matches Ok(c)
            && c.license_key@ == l@ && c.instance_id@ == i@ && c.selected_model == selected_model)),
{
    match license_key {
        None => Err(String::from_str("License key not found")),
        Some(l) => match instance_id {
            None => Err(String::from_str("Instance ID not found")),
            Some(i) => Ok(Credentials { license_key: l, instance_id: i, selected_model }),
        },
    }
}

/// The model list request: a POST with the access key.
pub fn models_request(app_endpoint: &str, access_key: &str) -> (r: BackendRequest)
    ensures
        r.url@ == app_endpoint@ + "/api/models"@,
        header_views(r.headers@) == seq![
            ("Content-Type"@, "application/json"@),
            ("Authorization"@, "Bearer "@ + access_key@),
        ],
        r.body is None,
{
    let mut url = String::from_str(app_endpoint);
    url.append("/api/models");
    let mut bearer = String::from_str("Bearer ");
    bearer.append(access_key);
    let mut headers: Vec<(String, String)> = Vec::new();
    headers.push(pair("Content-Type", "application/json"));
    headers.push((String::from_str("Authorization"), bearer));
    assert(header_views(headers@) =~= seq![
        ("Content-Type"@, "application/json"@),
        ("Authorization"@, "Bearer "@ + access_key@),
    ]);
    BackendRequest { url, headers, body: None }
}

/// The system prompt request: identity headers and `{"user_prompt": ...}`.
pub fn system_prompt_request(
    app_endpoint: &str,
    access_key: &str,
    credentials: &Credentials,
    machine_id: &str,
    app_version: &str,
    user_prompt: &str,
) -> (r: BackendRequest)
    ensures
        r.url@ == app_endpoint@ + "/api/prompt"@,
        header_views(r.headers@) == seq![
            ("Content-Type"@, "application/json"@),
            ("Authorization"@, "Bearer "@ + access_key@),
            ("license_key"@, credentials.license_key@),
            ("instance"@, credentials.instance_id@),
            ("machine_id"@, machine_id@),
            ("app_version"@, app_version@),
        ],
        r.body matches Some(b) && b@ == object_text(seq![("user_prompt"@, json_string_literal(user_prompt@))]),
{
    let mut url = String::from_str(app_endpoint);
    url.append("/api/prompt");
    let mut bearer = String::from_str("Bearer ");
    bearer.append(access_key);
    let mut headers: Vec<(String, String)> = Vec::new();
    headers.push(pair("Content-Type", "application/json"));
    headers.push((String::from_str("Authorization"), bearer));
    headers.push(pair("license_key", credentials.license_key.as_str()));
    headers.push(pair("instance", credentials.instance_id.as_str()));
    headers.push(pair("machine_id", machine_id));
    headers.push(pair("app_version", app_version));
    assert(header_views(headers@) =~= seq![
        ("Content-Type"@, "application/json"@),
        ("Authorization"@, "Bearer "@ + access_key@),
        ("license_key"@, credentials.license_key@),
        ("instance"@, credentials.instance_id@),
        ("machine_id"@, machine_id@),
        ("app_version"@, app_version@),
    ]);
    let mut members: Vec<(String, String)> = Vec::new();
    members.push((String::from_str("user_prompt"), string_literal(user_prompt)));
    assert(member_views(members@) =~= seq![("user_prompt"@, json_string_literal(user_prompt@))]);
    let body = object_of(&members);
    BackendRequest { url, headers, body: Some(body) }
}

/// The activity summary request; refused without a device identifier.
pub fn activity_request(
    app_endpoint: &str,
    access_key: &str,
    credentials: &Credentials,
    machine_id: &str,
    app_version: &str,
) -> (r: Result<BackendRequest, String>)
    ensures
        machine_id@.len() == 0 ==> (r matches Err(e) && e@ == "Machine identifier unavailable"@),
        machine_id@.len() > 0 ==> (r matches Ok(q) && q.url@ == trim_slashes(app_endpoint@)
            + "/api/activity"@ && q.body is None && header_views(q.headers@) == seq![
            ("Authorization"@, "Bearer "@ + access_key@),
            ("license_key"@, credentials.license_key@),
            ("instance_name"@, credentials.instance_id@),
            ("machine_id"@, machine_id@),
            ("app_version"@, app_version@),
        ]),
{
    if machine_id.is_empty() {
        return Err(String::from_str("Machine identifier unavailable"));
    }
    let url = beacon_url(app_endpoint, "/api/activity");
    let mut bearer = String::from_str("Bearer ");
    bearer.append(access_key);
    let mut headers: Vec<(String, String)> = Vec::new();
    headers.push((String::from_str("Authorization"), bearer));
    headers.push(pair("license_key", credentials.license_key.as_str()));
    headers.push(pair("instance_name", credentials.instance_id.as_str()));
    headers.push(pair("machine_id", machine_id));
    headers.push(pair("app_version", app_version));
    assert(header_views(headers@) =~= seq![
        ("Authorization"@, "Bearer "@ + access_key@),
        ("license_key"@, credentials.license_key@),
        ("instance_name"@, credentials.instance_id@),
        ("machine_id"@, machine_id@),
        ("app_version"@, app_version@),
    ]);
    Ok(BackendRequest { url, headers, body: None })
}

/// The detail of a failed reply: the body's `error` string, else its
/// `message` string, else the body itself.
pub open spec fn server_error_detail(body: Seq<char>) -> Seq<char> {
    match json_string_at(body, "/error"@) {
        Some(e) => e,
        None => match json_string_at(body, "/message"@) {
            Some(m) => m,
            None => body,
        },
    }
}

/// As `server_error_detail`, but `message` is preferred over `error`.
pub open spec fn server_error_detail_message_first(body: Seq<char>) -> Seq<char> {
    match json_string_at(body, "/message"@) {
        Some(m) => m,
        None => match json_string_at(body, "/error"@) {
            Some(e) => e,
            None => body,
        },
    }
}

/// The detail of a failed reply, `error` before `message`.
pub fn error_detail(body: &str) -> (r: String)
    ensures
        r@ == server_error_detail(body@),
{
    match string_at(body, "/error") {
        Some(e) => e,
        None => match string_at(body, "/message") {
            Some(m) => m,
            None => String::from_str(body),
        },
    }
}

/// The detail of a failed reply, `message` before `error`.
pub fn error_detail_message_first(body: &str) -> (r: String)
    ensures
        r@ == server_error_detail_message_first(body@),
{
    match string_at(body, "/message") {
        Some(m) => m,
        None => match string_at(body, "/error") {
            Some(e) => e,
            None => String::from_str(body),
        },
    }
}

/// "Server error (<status line>): <detail>".
pub fn server_error_message(status: u16, detail: &str) -> (r: String)
    requires
        100 <= status <= 999,
    ensures
        r@ == "Server error ("@ + status_line_of(status) + "): "@ + detail@,
{
    let mut m = String::from_str("Server error (");
    let line = status_line(status);
    m.append(line.as_str());
    m.append("): ");
    m.append(detail);
    m
}

/// `s` cut before the first occurrence of `marker`, or whole.
pub open spec fn cut_before(s: Seq<char>, marker: Seq<char>) -> Seq<char> {
    if contains(s, marker) {
        let i = choose|i: int| occurs_at(s, marker, i) && forall|j: int| 0 <= j < i ==> !occurs_at(s, marker, j);
        s.subrange(0, i)
    } else {
        s
    }
}

proof fn lemma_first_occurrence_unique(s: Seq<char>, m: Seq<char>, i: int)
    requires
        occurs_at(s, m, i),
        forall|j: int| 0 <= j < i ==> !occurs_at(s, m, j),
    ensures
        cut_before(s, m) == s.subrange(0, i),
{
    assert(contains(s, m));
    let k = choose|k: int| occurs_at(s, m, k) && forall|j: int| 0 <= j < k ==> !occurs_at(s, m, j);
    if k < i {
        assert(!occurs_at(s, m, k));
    }
    if i < k {
        assert(!occurs_at(s, m, i));
    }
    assert(k == i);
}

/// A send failure made readable: "<context>: <error>", with any trailing
/// " for url (...)" part of the error removed.
pub fn transport_error_message(context: &str, error_text: &str) -> (r: String)
    ensures
        r@ == context@ + ": "@ + cut_before(error_text@, " for url ("@),
{
    let s = chars_of(error_text);
    let marker = chars_of(" for url (");
    let mut m = String::from_str(context);
    m.append(": ");
    match find_seq(&s, &marker) {
        Some(i) => {
            proof {
                lemma_first_occurrence_unique(s@, marker@, i as int);
            }
            m.append(error_text.substring_char(0, i));
        },
        None => {
            m.append(error_text);
        },
    }
    m
}

impl ConfigError {
    /// The text shown for this failure.
    pub fn message(&self) -> (r: String)
        requires
            *self matches ConfigError::FetchFailed { status, .. } ==> 100 <= status <= 999,
        ensures
            *self is NotAuthenticated ==> r@ == "No license found. Please activate your license first."@,
            *self matches ConfigError::Transport(t) ==> r@ == t@,
            *self matches ConfigError::Decode(t) ==> r@ == t@,
            *self matches ConfigError::FetchFailed { status, detail } ==> r@ == "Server error ("@
                + status_line_of(status) + "): "@ + detail@,
    {
        match self {
            ConfigError::NotAuthenticated => String::from_str(
                "No license found. Please activate your license first.",
            ),
            ConfigError::Transport(t) => t.clone(),
            ConfigError::Decode(t) => t.clone(),
            ConfigError::FetchFailed { status, detail } => server_error_message(
                *status,
                detail.as_str(),
            ),
        }
    }
}

} // verus!
