//! Transcription: payload decoding, the multipart fields, reading the
//! provider's reply, and the primary/fallback policy as explicit steps.
use vstd::prelude::*;
use base64::Engine as _;
use crate::http::{status_line, status_line_of};
use crate::json::{json_string_at, json_value_text_at, string_at, value_text_at};
use crate::model::{ApiResponseConfig, AudioResponse, UserAudioConfig, UserAudioHeader};
use crate::telemetry::TelemetryEvent;
use crate::text::{
    chars_of, find_char, has_prefix, lemma_trim_idempotent, lemma_trimmed_piece, trim, trim_bounds,
    trimmed,
};

verus! {

broadcast use vstd::string::group_string_axioms;

#[verifier::external_type_specification]
#[verifier::external_body]
pub struct ExDecodeError(base64::DecodeError);

/// The bytes that base64's standard engine decodes from `s`, when `s` is
/// valid standard base64.
pub uninterp spec fn base64_standard_decode(s: Seq<char>) -> Option<Seq<u8>>;

/// Relies on `base64::engine::general_purpose::STANDARD.decode`.
#[verifier::external_body]
fn decode_standard(s: &str) -> (r: Result<Vec<u8>, base64::DecodeError>)
    ensures
        match r {
            Ok(v) => base64_standard_decode(s@) == Some(v@),
            Err(_) => base64_standard_decode(s@) is None,
        },
{
    base64::engine::general_purpose::STANDARD.decode(s)
}

/// Relies on `base64::DecodeError`'s `Display`, for the error text.
#[verifier::external_body]
fn decode_error_text(e: &base64::DecodeError) -> (r: String) {
    e.to_string()
}

/// The first position of `c` in `t`.
pub open spec fn first_index_of(t: Seq<char>, c: char) -> Option<int>
    decreases t.len(),
{
    if t.len() == 0 {
        None
    } else if t[0] == c {
        Some(0)
    } else {
        match first_index_of(t.drop_first(), c) {
            Some(i) => Some(i + 1),
            None => None,
        }
    }
}

/// The payload with surrounding whitespace and any data-URI header (up to
/// and including the first comma) removed.
pub open spec fn stripped(s: Seq<char>) -> Seq<char> {
    let t = trimmed(s);
    match first_index_of(t, ',') {
        Some(i) => t.subrange(i + 1, t.len() as int),
        None => t,
    }
}

proof fn lemma_first_index(t: Seq<char>, c: char, i: int)
    requires
        0 <= i <= t.len(),
        forall|k: int| 0 <= k < i ==> t[k] != c,
        i == t.len() || t[i] == c,
    ensures
        first_index_of(t, c) == (if i == t.len() {
            None
        } else {
            Some(i)
        }),
    decreases i,
{
    if i > 0 {
        let d = t.drop_first();
        assert forall|k: int| 0 <= k < i - 1 implies d[k] != c by {
            assert(d[k] == t[k + 1]);
        }
        lemma_first_index(d, c, i - 1);
    }
}

proof fn lemma_first_index_found(t: Seq<char>, c: char)
    ensures
        first_index_of(t, c) matches Some(i) ==> 0 <= i < t.len() && t[i] == c,
        first_index_of(t, c) is None ==> !t.contains(c),
    decreases t.len(),
{
    if t.len() > 0 {
        let d = t.drop_first();
        lemma_first_index_found(d, c);
        if t[0] != c && first_index_of(d, c) is None {
            assert forall|k: int| 0 <= k < t.len() implies t[k] != c by {
                if k > 0 {
                    assert(t[k] == d[k - 1]);
                }
            }
        }
    }
}

/// The payload with whitespace and any data-URI header removed.
pub fn strip_data_uri(audio_base64: &str) -> (r: String)
    ensures
        r@ == stripped(audio_base64@),
{
    let t = trim(audio_base64);
    let tv = chars_of(t.as_str());
    match find_char(&tv, ',') {
        Some(i) => {
            proof {
                assert forall|k: int| 0 <= k < i implies tv@[k] != ',' by {
                    assert(tv@.subrange(0, i as int)[k] == tv@[k]);
                }
                lemma_first_index(tv@, ',', i as int);
            }
            String::from_str(t.as_str().substring_char(i + 1, tv.len()))
        },
        None => {
            proof {
                assert forall|k: int| 0 <= k < tv@.len() implies tv@[k] != ',' by {
                    assert(tv@[k] != ',');
                }
                lemma_first_index(tv@, ',', tv@.len() as int);
            }
            t
        },
    }
}

/// Stripping a payload that carries no data-URI header twice is stripping
/// it once.
pub proof fn lemma_strip_idempotent(s: Seq<char>)
    requires
        !s.contains(','),
    ensures
        stripped(stripped(s)) == stripped(s),
{
    let t = trimmed(s);
    lemma_trimmed_piece(s);
    let a = choose|a: int|
        0 <= a && a + t.len() <= s.len() && #[trigger] s.subrange(a, a + t.len()) == t;
    assert(!t.contains(',')) by {
        if t.contains(',') {
            let k = choose|k: int| 0 <= k < t.len() && t[k] == ',';
            assert(s[a + k] == t[k]);
        }
    }
    lemma_first_index_found(t, ',');
    if first_index_of(t, ',') is Some {
        let i = first_index_of(t, ',')->0;
        assert(t[i] == ',');
    }
    assert(stripped(s) == t);
    lemma_trim_idempotent(s);
    assert(trimmed(t) == t);
    lemma_first_index_found(trimmed(t), ',');
    if first_index_of(t, ',') is Some {
        let i = first_index_of(t, ',')->0;
        assert(t[i] == ',');
    }
}

/// The audio bytes of a base64 payload, optionally prefixed by a data-URI
/// header.
pub fn decode_audio_base64(audio_base64: &str) -> (r: Result<Vec<u8>, String>)
    ensures
        match r {
            Ok(v) => base64_standard_decode(stripped(audio_base64@)) == Some(v@),
            Err(e) => base64_standard_decode(stripped(audio_base64@)) is None && has_prefix(
                e@,
                "Failed to decode audio data: "@,
            ),
        },
{
    let s = strip_data_uri(audio_base64);
    match decode_standard(s.as_str()) {
        Ok(v) => Ok(v),
        Err(e) => {
            let mut m = String::from_str("Failed to decode audio data: ");
            let ghost head = m@;
            let detail = decode_error_text(&e);
            m.append(detail.as_str());
            assert(m@.subrange(0, head.len() as int) =~= head);
            Err(m)
        },
    }
}

/// The extra fields that the headers give: keys trimmed, empty keys
/// skipped, order kept.
pub open spec fn header_fields(headers: Seq<UserAudioHeader>) -> Seq<(Seq<char>, Seq<char>)>
    decreases headers.len(),
{
    if headers.len() == 0 {
        seq![]
    } else {
        let prev = header_fields(headers.drop_last());
        let k = trimmed(headers.last().key@);
        if k.len() == 0 {
            prev
        } else {
            prev.push((k, headers.last().value@))
        }
    }
}

/// The text fields of the multipart form: the model, then the headers.
pub open spec fn form_fields(model: Seq<char>, headers: Option<Vec<UserAudioHeader>>) -> Seq<
    (Seq<char>, Seq<char>),
> {
    seq![("model"@, model)] + match headers {
        Some(h) => header_fields(h@),
        None => seq![],
    }
}

pub open spec fn field_views(v: Seq<(String, String)>) -> Seq<(Seq<char>, Seq<char>)> {
    v.map_values(|e: (String, String)| (e.0@, e.1@))
}

/// The text fields sent beside the audio file part.
pub fn transcription_form_fields(model: &str, headers: &Option<Vec<UserAudioHeader>>) -> (r: Vec<
    (String, String),
>)
    ensures
        field_views(r@) == form_fields(model@, *headers),
{
    let mut r: Vec<(String, String)> = Vec::new();
    r.push((String::from_str("model"), String::from_str(model)));
    let ghost head = field_views(r@);
    match headers {
        Some(hs) => {
            let mut i: usize = 0;
            while i < hs.len()
                invariant
                    i <= hs@.len(),
                    field_views(r@) == head + header_fields(hs@.subrange(0, i as int)),
                decreases hs@.len() - i,
            {
                assert(hs@.subrange(0, i + 1).drop_last() =~= hs@.subrange(0, i as int));
                let k = trim(hs[i].key.as_str());
                let ghost before = field_views(r@);
                if !k.as_str().is_empty() {
                    let v = hs[i].value.clone();
                    r.push((k, v));
                    assert(field_views(r@) =~= before.push((k@, hs@[i as int].value@)));
                    assert(head + header_fields(hs@.subrange(0, i + 1)) =~= (head + header_fields(
                        hs@.subrange(0, i as int),
                    )).push((k@, hs@[i as int].value@)));
                }
                i = i + 1;
            }
            assert(hs@.subrange(0, i as int) =~= hs@);
        },
        None => {
            assert(field_views(r@) =~= head + Seq::<(Seq<char>, Seq<char>)>::empty());
        },
    }
    r
}

/// How one transcription request went, as the transport saw it.
#[derive(Debug)]
pub enum AttemptOutcome {
    /// The request could not be sent.
    SendFailed(String),
    /// A non-success status, with the body text (or a note that it could
    /// not be read).
    Rejected { status: u16, body: String },
    /// Success status, but the body could not be read.
    ReadFailed(String),
    /// Success status and the body text.
    Body(String),
}

pub open spec fn result_view(r: Result<String, String>) -> Result<Seq<char>, Seq<char>> {
    match r {
        Ok(s) => Ok(s@),
        Err(e) => Err(e@),
    }
}

/// The transcription in a successful reply: `text`, else `transcription`,
/// else `result`; else the JSON itself when the body is JSON; else the raw
/// body. An empty body is an error.
pub open spec fn transcription_text(body: Seq<char>) -> Result<Seq<char>, Seq<char>> {
    if trimmed(body).len() == 0 {
        Err("Transcription response was empty"@)
    } else {
        match json_string_at(body, "/text"@) {
            Some(t) => Ok(t),
            None => match json_string_at(body, "/transcription"@) {
                Some(t) => Ok(t),
                None => match json_string_at(body, "/result"@) {
                    Some(t) => Ok(t),
                    None => match json_value_text_at(body, ""@) {
                        Some(j) => Ok(j),
                        None => Ok(body),
                    },
                },
            },
        }
    }
}

/// What one attempt yields: the transcription, or the raw error.
pub open spec fn attempt_result(o: AttemptOutcome) -> Result<Seq<char>, Seq<char>> {
    match o {
        AttemptOutcome::SendFailed(e) => Err("Transcription request failed to send: "@ + e@),
        AttemptOutcome::Rejected { status, body } => Err(
            "Transcription request returned "@ + status_line_of(status) + " with body: "@ + body@,
        ),
        AttemptOutcome::ReadFailed(e) => Err("Failed to read transcription response: "@ + e@),
        AttemptOutcome::Body(b) => transcription_text(b@),
    }
}

/// The transcription in a successful reply body.
pub fn parse_transcription_body(body: &str) -> (r: Result<String, String>)
    ensures
        result_view(r) == transcription_text(body@),
{
    let v = chars_of(body);
    let (a, b) = trim_bounds(&v);
    if a == b {
        return Err(String::from_str("Transcription response was empty"));
    }
    match string_at(body, "/text") {
        Some(t) => {
            return Ok(t);
        },
        None => {},
    }
    match string_at(body, "/transcription") {
        Some(t) => {
            return Ok(t);
        },
        None => {},
    }
    match string_at(body, "/result") {
        Some(t) => {
            return Ok(t);
        },
        None => {},
    }
    match value_text_at(body, "") {
        Some(j) => Ok(j),
        None => Ok(String::from_str(body)),
    }
}

/// The result of one attempt.
pub fn interpret_attempt(outcome: &AttemptOutcome) -> (r: Result<String, String>)
    requires
        *outcome matches AttemptOutcome::Rejected { status, .. } ==> 100 <= status <= 999,
    ensures
        result_view(r) == attempt_result(*outcome),
{
    match outcome {
        AttemptOutcome::SendFailed(e) => {
            let mut m = String::from_str("Transcription request failed to send: ");
            m.append(e.as_str());
            Err(m)
        },
        AttemptOutcome::Rejected { status, body } => {
            let mut m = String::from_str("Transcription request returned ");
            let line = status_line(*status);
            m.append(line.as_str());
            m.append(" with body: ");
            m.append(body.as_str());
            Err(m)
        },
        AttemptOutcome::ReadFailed(e) => {
            let mut m = String::from_str("Failed to read transcription response: ");
            m.append(e.as_str());
            Err(m)
        },
        AttemptOutcome::Body(b) => parse_transcription_body(b.as_str()),
    }
}

/// One transcription endpoint: URL, bearer token, model.
#[derive(Debug)]
pub struct AudioTarget {
    pub url: String,
    pub token: String,
    pub model: String,
}

pub open spec fn target_view(t: AudioTarget) -> (Seq<char>, Seq<char>, Seq<char>) {
    (t.url@, t.token@, t.model@)
}

/// The fallback tier: only when both its URL and its token are set; its
/// model, else the primary model.
pub open spec fn fallback_of(c: UserAudioConfig) -> Option<(Seq<char>, Seq<char>, Seq<char>)> {
    match (c.fallback_url, c.fallback_user_token) {
        (Some(u), Some(t)) => Some(
            (
                u@,
                t@,
                match c.fallback_model {
                    Some(m) => m@,
                    None => c.model@,
                },
            ),
        ),
        _ => None,
    }
}

/// The next thing to do in a transcription.
#[derive(Debug)]
pub enum TranscriptionStep {
    /// Send the audio to this endpoint and report how it went.
    Attempt(AudioTarget),
    /// Finished with this response.
    Done(AudioResponse),
    /// Finished without a transcription: `message` for the caller, `report`
    /// for the error beacon.
    Failed { message: String, report: String },
}

pub open spec fn generic_transcription_failure() -> Seq<char> {
    "Transcription failed. Please try again."@
}

pub open spec fn not_configured_message() -> Seq<char> {
    "Audio transcription is not configured for this workspace. Please contact support."@
}

/// The step ends the call with transcription `t`.
pub open spec fn done_with(s: TranscriptionStep, t: Seq<char>) -> bool {
    match s {
        TranscriptionStep::Done(resp) => resp.success && resp.error is None && match resp.transcription {
            Some(x) => x@ == t,
            None => false,
        },
        _ => false,
    }
}

/// The step ends the call with the generic message, reporting `report`.
pub open spec fn failed_with(s: TranscriptionStep, report: Seq<char>) -> bool {
    match s {
        TranscriptionStep::Failed { message, report: r } => message@ == generic_transcription_failure()
            && r@ == report,
        _ => false,
    }
}

/// The step is an attempt at endpoint `f`.
pub open spec fn attempts(s: TranscriptionStep, f: (Seq<char>, Seq<char>, Seq<char>)) -> bool {
    match s {
        TranscriptionStep::Attempt(t) => target_view(t) == f,
        _ => false,
    }
}

fn success_response(t: String) -> (r: AudioResponse)
    ensures
        r.success,
        r.transcription matches Some(x) && x@ == t@,
        r.error is None,
{
    AudioResponse { success: true, transcription: Some(t), error: None }
}

fn clone_opt(o: &Option<String>) -> (r: Option<String>)
    ensures
        match (o, r) {
            (Some(a), Some(b)) => a@ == b@,
            (None, None) => true,
            _ => false,
        },
{
    match o {
        Some(s) => Some(s.clone()),
        None => None,
    }
}

/// The primary endpoint.
pub fn primary_target(cfg: &UserAudioConfig) -> (r: AudioTarget)
    ensures
        target_view(r) == (cfg.url@, cfg.user_token@, cfg.model@),
{
    AudioTarget { url: cfg.url.clone(), token: cfg.user_token.clone(), model: cfg.model.clone() }
}

/// The fallback endpoint, when one is configured.
pub fn fallback_target(cfg: &UserAudioConfig) -> (r: Option<AudioTarget>)
    ensures
        match r {
            Some(t) => fallback_of(*cfg) == Some(target_view(t)),
            None => fallback_of(*cfg) is None,
        },
{
    match (&cfg.fallback_url, &cfg.fallback_user_token) {
        (Some(u), Some(t)) => {
            let model = match &cfg.fallback_model {
                Some(m) => m.clone(),
                None => cfg.model.clone(),
            };
            Some(AudioTarget { url: u.clone(), token: t.clone(), model })
        },
        _ => None,
    }
}

/// The audio settings of the configuration; without them transcription
/// is refused before anything is decoded or sent.
pub fn audio_settings(config: &ApiResponseConfig) -> (r: Result<&UserAudioConfig, String>)
    ensures
        config.user_audio is None ==> (r matches Err(e) && e@ == not_configured_message()),
        config.user_audio matches Some(c) ==> (r matches Ok(x) && *x == c),
{
    match &config.user_audio {
        None => Err(
            String::from_str(
                "Audio transcription is not configured for this workspace. Please contact support.",
            ),
        ),
        Some(c) => Ok(c),
    }
}

/// The error beacon for a failed transcription.
pub fn transcription_error_event(report: String, model: Option<String>, provider: Option<String>) -> (r:
    TelemetryEvent)
    ensures
        r matches TelemetryEvent::Error { endpoint, message, model: m, provider: p } && endpoint@
            == "/api/transcribe"@ && message@ == report@ && m == model && p == provider,
{
    TelemetryEvent::Error {
        endpoint: String::from_str("/api/transcribe"),
        message: report,
        model,
        provider,
    }
}

/// After the primary attempt: its transcription ends the call; on failure
/// the fallback tier is tried when configured, else the call fails.
pub fn after_primary(cfg: &UserAudioConfig, primary: Result<String, String>) -> (r:
    TranscriptionStep)
    ensures
        match primary {
            Ok(t) => done_with(r, t@),
            Err(e) => match fallback_of(*cfg) {
                Some(f) => attempts(r, f),
                None => failed_with(r, "Primary: "@ + e@ + " | Fallback: fallback not configured"@),
            },
        },
{
    match primary {
        Ok(t) => TranscriptionStep::Done(success_response(t)),
        Err(e) => match fallback_target(cfg) {
            Some(t) => TranscriptionStep::Attempt(t),
            None => {
                let mut report = String::from_str("Primary: ");
                report.append(e.as_str());
                report.append(" | Fallback: fallback not configured");
                TranscriptionStep::Failed {
                    message: String::from_str("Transcription failed. Please try again."),
                    report,
                }
            },
        },
    }
}

/// After the fallback attempt: its transcription ends the call, else the
/// call fails with both errors reported. There is no further attempt.
pub fn after_fallback(primary_error: &str, fallback: Result<String, String>) -> (r:
    TranscriptionStep)
    ensures
        !(r is Attempt),
        match fallback {
            Ok(t) => done_with(r, t@),
            Err(f) => failed_with(r, "Primary: "@ + primary_error@ + " | Fallback: "@ + f@),
        },
{
    match fallback {
        Ok(t) => TranscriptionStep::Done(success_response(t)),
        Err(f) => {
            let mut report = String::from_str("Primary: ");
            report.append(primary_error);
            report.append(" | Fallback: ");
            report.append(f.as_str());
            TranscriptionStep::Failed {
                message: String::from_str("Transcription failed. Please try again."),
                report,
            }
        },
    }
}

} // verus!
