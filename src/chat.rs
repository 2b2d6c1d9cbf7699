//! The chat completion request: message list, body with the configured
//! extra members written over it, and the messages shown on failure.
use vstd::prelude::*;
use crate::classify::{classify, map_api_error_message, ApiConfigError};
use crate::http::{parse_url, status_line, status_line_of, url_serialization};
use crate::json::{
    array_elements, json_array_elements, json_object_members, json_string_at, json_string_literal,
    object_members, string_at, string_literal,
};
use crate::jsontext::{
    array_of, array_text, last_value, lemma_merge_lookup, lookup, member_views, merge,
    merge_members, object_of, object_text, string_views, Members,
};
use crate::telemetry::TelemetryEvent;
use crate::text::opt_view;

verus! {

broadcast use vstd::string::group_string_axioms;

pub open spec fn system_message(prompt: Seq<char>) -> Seq<char> {
    "{\"role\":\"system\",\"content\":"@ + json_string_literal(prompt) + "}"@
}

pub open spec fn text_part(text: Seq<char>) -> Seq<char> {
    "{\"type\":\"text\",\"text\":"@ + json_string_literal(text) + "}"@
}

pub open spec fn image_part(image: Seq<char>) -> Seq<char> {
    "{\"type\":\"image_url\",\"image_url\":{\"url\":"@ + json_string_literal(
        "data:image/jpeg;base64,"@ + image,
    ) + "}}"@
}

/// The user turn: a text part, then one image part per image.
pub open spec fn user_turn(text: Seq<char>, images: Seq<Seq<char>>) -> Seq<char> {
    "{\"role\":\"user\",\"content\":"@ + array_text(
        seq![text_part(text)] + images.map_values(|i: Seq<char>| image_part(i)),
    ) + "}"@
}

/// The prior turns, verbatim; dropped whole when they do not parse as a
/// JSON array.
pub open spec fn history_messages(history: Option<Seq<char>>) -> Seq<Seq<char>> {
    match history {
        Some(h) => match json_array_elements(h) {
            Some(items) => items,
            None => seq![],
        },
        None => seq![],
    }
}

/// [system message if any] + history + user message.
pub open spec fn chat_messages(
    text: Seq<char>,
    system_prompt: Option<Seq<char>>,
    history: Option<Seq<char>>,
    images: Seq<Seq<char>>,
) -> Seq<Seq<char>> {
    (match system_prompt {
        Some(p) => seq![system_message(p)],
        None => seq![],
    }) + history_messages(history) + seq![user_turn(text, images)]
}

/// The generated body: model, messages, and streaming on.
pub open spec fn base_members(model: Seq<char>, messages: Seq<Seq<char>>) -> Members {
    seq![
        ("model"@, json_string_literal(model)),
        ("messages"@, array_text(messages)),
        ("stream"@, "true"@),
    ]
}

/// The configured extra members; none unless the text is a JSON object.
pub open spec fn extra_members(extra_body: Seq<char>) -> Members {
    match json_object_members(extra_body) {
        Some(m) => m,
        None => seq![],
    }
}

/// The body's members: the extra members written over the generated ones.
pub open spec fn chat_body_members(
    model: Seq<char>,
    messages: Seq<Seq<char>>,
    extra_body: Seq<char>,
) -> Members {
    merge(base_members(model, messages), extra_members(extra_body))
}

/// The messages of one chat turn, each as JSON text.
pub fn build_chat_messages(
    user_message: &str,
    system_prompt: Option<String>,
    history: Option<String>,
    images: &Vec<String>,
) -> (r: Vec<String>)
    ensures
        string_views(r@) == chat_messages(
            user_message@,
            opt_view(system_prompt),
            opt_view(history),
            string_views(images@),
        ),
{
    let mut messages: Vec<String> = Vec::new();
    match system_prompt {
        Some(p) => {
            let mut m = String::from_str("{\"role\":\"system\",\"content\":");
            let lit = string_literal(p.as_str());
            m.append(lit.as_str());
            m.append("}");
            messages.push(m);
        },
        None => {},
    }
    let ghost head = string_views(messages@);
    match history {
        Some(h) => match array_elements(h.as_str()) {
            Some(items) => {
                let mut i: usize = 0;
                while i < items.len()
                    invariant
                        i <= items@.len(),
                        string_views(messages@) == head + string_views(items@).subrange(0, i as int),
                    decreases items@.len() - i,
                {
                    let ghost before = string_views(messages@);
                    let item = items[i].clone();
                    messages.push(item);
                    assert(string_views(messages@) =~= before.push(items@[i as int]@));
                    i = i + 1;
                    assert(string_views(messages@) =~= head + string_views(items@).subrange(0, i as int));
                }
                assert(string_views(items@).subrange(0, i as int) =~= string_views(items@));
            },
            None => {
                assert(string_views(messages@) =~= head + Seq::<Seq<char>>::empty());
            },
        },
        None => {
            assert(string_views(messages@) =~= head + Seq::<Seq<char>>::empty());
        },
    }
    let ghost mid = string_views(messages@);
    let mut parts: Vec<String> = Vec::new();
    let mut t = String::from_str("{\"type\":\"text\",\"text\":");
    let tl = string_literal(user_message);
    t.append(tl.as_str());
    t.append("}");
    parts.push(t);
    let ghost imgs = string_views(images@);
    let mut i: usize = 0;
    while i < images.len()
        invariant
            i <= images@.len(),
            imgs == string_views(images@),
            string_views(parts@) == seq![text_part(user_message@)] + imgs.subrange(0, i as int).map_values(
                |x: Seq<char>| image_part(x),
            ),
        decreases images@.len() - i,
    {
        let mut url = String::from_str("data:image/jpeg;base64,");
        url.append(images[i].as_str());
        let ul = string_literal(url.as_str());
        let mut part = String::from_str("{\"type\":\"image_url\",\"image_url\":{\"url\":");
        part.append(ul.as_str());
        part.append("}}");
        let ghost before = string_views(parts@);
        parts.push(part);
        assert(string_views(parts@) =~= before.push(image_part(imgs[i as int])));
        i = i + 1;
        assert(string_views(parts@) =~= seq![text_part(user_message@)] + imgs.subrange(0, i as int).map_values(
            |x: Seq<char>| image_part(x),
        ));
    }
    assert(imgs.subrange(0, i as int) =~= imgs);
    let mut u = String::from_str("{\"role\":\"user\",\"content\":");
    let content = array_of(&parts);
    u.append(content.as_str());
    u.append("}");
    messages.push(u);
    assert(string_views(messages@) =~= mid.push(user_turn(user_message@, imgs)));
    messages
}

/// The request body: `{"model", "messages", "stream": true}` with each
/// member of `extra_body` (when it is a JSON object) written over it in
/// order, replacing a generated member of the same name.
pub fn build_chat_body(model: &str, messages: &Vec<String>, extra_body: &str) -> (r: String)
    ensures
        r@ == object_text(chat_body_members(model@, string_views(messages@), extra_body@)),
{
    let mut members: Vec<(String, String)> = Vec::new();
    members.push((String::from_str("model"), string_literal(model)));
    members.push((String::from_str("messages"), array_of(messages)));
    members.push((String::from_str("stream"), String::from_str("true")));
    assert(member_views(members@) =~= base_members(model@, string_views(messages@)));
    match object_members(extra_body) {
        Some(extra) => {
            merge_members(&mut members, extra);
        },
        None => {
            assert(extra_members(extra_body@) =~= Seq::<(Seq<char>, Seq<char>)>::empty());
        },
    }
    object_of(&members)
}

/// Every member that `extra_body` names takes its (last) value there; every
/// generated member it does not name, `messages` among them, stays as
/// generated.
pub proof fn lemma_chat_body_override(
    model: Seq<char>,
    messages: Seq<Seq<char>>,
    extra_body: Seq<char>,
    k: Seq<char>,
)
    ensures
        lookup(chat_body_members(model, messages, extra_body), k) == match last_value(
            extra_members(extra_body),
            k,
        ) {
            Some(v) => Some(v),
            None => lookup(base_members(model, messages), k),
        },
        last_value(extra_members(extra_body), "messages"@) is None ==> lookup(
            chat_body_members(model, messages, extra_body),
            "messages"@,
        ) == Some(array_text(messages)),
{
    lemma_merge_lookup(base_members(model, messages), extra_members(extra_body), k);
    lemma_merge_lookup(base_members(model, messages), extra_members(extra_body), "messages"@);
    let b = base_members(model, messages);
    reveal_strlit("model");
    reveal_strlit("messages");
    assert("model"@.len() == 5);
    assert("messages"@.len() == 8);
    assert(b[0].0 != "messages"@);
    assert(b[1].0 == "messages"@);
    assert(b.drop_first()[0] == b[1]);
    assert(b.drop_first().len() == 2);
    assert(lookup(b.drop_first(), "messages"@) == Some(array_text(messages)));
    assert(lookup(b, "messages"@) == Some(array_text(messages)));
}

/// A failure as the caller sees it and as telemetry records it.
#[derive(Debug)]
pub struct ChatFailure {
    /// The classified, user-safe message.
    pub message: String,
    /// The raw detail, for the error beacon only.
    pub report: String,
}

/// What a failed send is matched on: its error text, then the target URL
/// when it parses.
pub open spec fn send_error_sources(error_text: Seq<char>, url: Seq<char>) -> Seq<Seq<char>> {
    seq![error_text] + match url_serialization(url) {
        Some(u) => seq![u],
        None => seq![],
    }
}

/// What a non-success reply is matched on: its body, its status line, then
/// the body's `error` and `message` strings when present.
pub open spec fn status_error_sources(code: u16, body: Seq<char>) -> Seq<Seq<char>> {
    seq![body, status_line_of(code)] + (match json_string_at(body, "/error"@) {
        Some(e) => seq![e],
        None => seq![],
    }) + match json_string_at(body, "/message"@) {
        Some(m) => seq![m],
        None => seq![],
    }
}

/// The error beacon for a failed chat turn.
pub fn chat_error_event(report: String, model: Option<String>, provider: Option<String>) -> (r:
    TelemetryEvent)
    ensures
        r matches TelemetryEvent::Error { endpoint, message, model: m, provider: p } && endpoint@
            == "/api/chat"@ && message@ == report@ && m == model && p == provider,
{
    TelemetryEvent::Error { endpoint: String::from_str("/api/chat"), message: report, model, provider }
}

/// The activity beacon for a chat turn, for the configured model.
pub fn chat_activity_event(config_model: &str, usage: Option<String>) -> (r: TelemetryEvent)
    ensures
        r matches TelemetryEvent::Activity { ai_model, usage: u } && ai_model@ == config_model@
            && u == usage,
{
    TelemetryEvent::Activity { ai_model: String::from_str(config_model), usage }
}

/// A request that could not be sent.
pub fn classify_send_error(rules: &[ApiConfigError], error_text: &str, url: &str) -> (r:
    ChatFailure)
    ensures
        r.message@ == classify(rules@, send_error_sources(error_text@, url@)),
        r.report@ == error_text@,
{
    let mut sources: Vec<String> = Vec::new();
    sources.push(String::from_str(error_text));
    match parse_url(url) {
        Some(u) => sources.push(u),
        None => {},
    }
    assert(crate::classify::views(sources@) =~= send_error_sources(error_text@, url@));
    ChatFailure {
        message: map_api_error_message(rules, sources.as_slice()),
        report: String::from_str(error_text),
    }
}

/// A reply with a non-success status `code` and body `body`; the report is
/// "<status line>: <body>".
pub fn classify_status_error(rules: &[ApiConfigError], code: u16, body: &str) -> (r: ChatFailure)
    requires
        100 <= code <= 999,
    ensures
        r.message@ == classify(rules@, status_error_sources(code, body@)),
        r.report@ == status_line_of(code) + ": "@ + body@,
{
    let mut sources: Vec<String> = Vec::new();
    sources.push(String::from_str(body));
    let status = status_line(code);
    sources.push(status.clone());
    match string_at(body, "/error") {
        Some(e) => sources.push(e),
        None => {},
    }
    match string_at(body, "/message") {
        Some(m) => sources.push(m),
        None => {},
    }
    assert(crate::classify::views(sources@) =~= status_error_sources(code, body@));
    let mut report = status;
    report.append(": ");
    report.append(body);
    ChatFailure { message: map_api_error_message(rules, sources.as_slice()), report }
}

/// The transport failed while the body was being read.
pub fn classify_stream_error(rules: &[ApiConfigError], error_text: &str) -> (r: ChatFailure)
    ensures
        r.message@ == classify(rules@, seq![error_text@]),
        r.report@ == error_text@,
{
    let mut sources: Vec<String> = Vec::new();
    sources.push(String::from_str(error_text));
    assert(crate::classify::views(sources@) =~= seq![error_text@]);
    ChatFailure {
        message: map_api_error_message(rules, sources.as_slice()),
        report: String::from_str(error_text),
    }
}

} // verus!
