//! Best-effort telemetry: what the core asks to be reported, and the
//! beacon bodies built from it. Sending is left to an independent worker.
use vstd::prelude::*;
use crate::json::{json_string_literal, string_literal};
use crate::jsontext::{member_views, object_of, object_text, Members};
use crate::model::Model;

verus! {

broadcast use vstd::string::group_string_axioms;

/// A beacon that the core asks for; delivery is not guaranteed.
#[derive(Debug)]
pub enum TelemetryEvent {
    /// One successful chat turn, on its first content token.
    Activity { ai_model: String, usage: Option<String> },
    /// A failure, with the raw (not user-safe) detail.
    Error { endpoint: String, message: String, model: Option<String>, provider: Option<String> },
}

/// Who reports: resolved by the worker when it sends.
#[derive(Debug)]
pub struct Identity {
    pub license_key: String,
    pub instance_id: String,
    pub machine_id: String,
    pub app_version: String,
    pub stored_model: Option<Model>,
}

pub open spec fn lit(s: Seq<char>) -> Seq<char> {
    json_string_literal(s)
}

/// The activity body: identity, version, the active model (the stored
/// selection's, else the configured one), and usage when captured.
pub open spec fn activity_members(id: Identity, configured_model: Seq<char>, usage: Option<Seq<char>>) -> Members {
    seq![
        ("license"@, lit(id.license_key@)),
        ("instance"@, lit(id.instance_id@)),
        ("machine_id"@, lit(id.machine_id@)),
        ("app_version"@, lit(id.app_version@)),
        ("ai_model"@, lit(
            match id.stored_model {
                Some(m) => m.model@,
                None => configured_model,
            },
        )),
    ] + match usage {
        Some(u) => seq![("usage"@, u)],
        None => seq![],
    }
}

/// The error body. The model and provider given win over the stored
/// selection's; absent both, they are empty.
pub open spec fn error_members(
    id: Identity,
    error_message: Seq<char>,
    endpoint: Seq<char>,
    model: Option<Seq<char>>,
    provider: Option<Seq<char>>,
) -> Members {
    seq![
        ("machine_id"@, lit(id.machine_id@)),
        ("error_message"@, lit(error_message)),
        ("app_version"@, lit(id.app_version@)),
        ("instance"@, lit(id.instance_id@)),
        ("license_key"@, lit(id.license_key@)),
        ("endpoint"@, lit(endpoint)),
        ("model"@, lit(
            match model {
                Some(m) => m,
                None => match id.stored_model {
                    Some(s) => s.model@,
                    None => seq![],
                },
            },
        )),
        ("provider"@, lit(
            match provider {
                Some(p) => p,
                None => match id.stored_model {
                    Some(s) => s.provider@,
                    None => seq![],
                },
            },
        )),
    ]
}

fn member(k: &str, v: &str) -> (r: (String, String))
    ensures
        r.0@ == k@,
        r.1@ == json_string_literal(v@),
{
    (String::from_str(k), string_literal(v))
}

/// The activity beacon body; none without a device identifier.
pub fn activity_payload(id: &Identity, configured_model: &str, usage: &Option<String>) -> (r: Option<String>)
    ensures
        id.machine_id@.len() == 0 ==> r is None,
        id.machine_id@.len() > 0 ==> crate::text::opt_view(r) == Some(
            object_text(activity_members(*id, configured_model@, crate::text::opt_view(*usage))),
        ),
{
    if id.machine_id.as_str().is_empty() {
        return None;
    }
    let mut members: Vec<(String, String)> = Vec::new();
    members.push(member("license", id.license_key.as_str()));
    members.push(member("instance", id.instance_id.as_str()));
    members.push(member("machine_id", id.machine_id.as_str()));
    members.push(member("app_version", id.app_version.as_str()));
    let ai_model = match &id.stored_model {
        Some(m) => m.model.as_str(),
        None => configured_model,
    };
    members.push(member("ai_model", ai_model));
    match usage {
        Some(u) => members.push((String::from_str("usage"), u.clone())),
        None => {},
    }
    assert(member_views(members@) =~= activity_members(
        *id,
        configured_model@,
        crate::text::opt_view(*usage),
    ));
    Some(object_of(&members))
}

/// The error beacon body; none without a device identifier.
pub fn error_payload(
    id: &Identity,
    error_message: &str,
    endpoint: &str,
    model: &Option<String>,
    provider: &Option<String>,
) -> (r: Option<String>)
    ensures
        id.machine_id@.len() == 0 ==> r is None,
        id.machine_id@.len() > 0 ==> crate::text::opt_view(r) == Some(object_text(
            error_members(
                *id,
                error_message@,
                endpoint@,
                crate::text::opt_view(*model),
                crate::text::opt_view(*provider),
            ),
        )),
{
    if id.machine_id.as_str().is_empty() {
        return None;
    }
    let mut members: Vec<(String, String)> = Vec::new();
    members.push(member("machine_id", id.machine_id.as_str()));
    members.push(member("error_message", error_message));
    members.push(member("app_version", id.app_version.as_str()));
    members.push(member("instance", id.instance_id.as_str()));
    members.push(member("license_key", id.license_key.as_str()));
    members.push(member("endpoint", endpoint));
    let m: &str = match model {
        Some(m) => m.as_str(),
        None => match &id.stored_model {
            Some(s) => s.model.as_str(),
            None => "",
        },
    };
    proof {
        reveal_strlit("");
        assert(""@ =~= Seq::<char>::empty());
    }
    assert(m@ == match model {
        Some(x) => x@,
        None => match id.stored_model {
            Some(s) => s.model@,
            None => Seq::<char>::empty(),
        },
    });
    members.push(member("model", m));
    let p: &str = match provider {
        Some(p) => p.as_str(),
        None => match &id.stored_model {
            Some(s) => s.provider.as_str(),
            None => "",
        },
    };
    members.push(member("provider", p));
    assert(member_views(members@) =~= error_members(
        *id,
        error_message@,
        endpoint@,
        crate::text::opt_view(*model),
        crate::text::opt_view(*provider),
    ));
    Some(object_of(&members))
}

/// `s` without its trailing slashes.
pub open spec fn trim_slashes(s: Seq<char>) -> Seq<char>
    decreases s.len(),
{
    if s.len() > 0 && s.last() == '/' {
        trim_slashes(s.drop_last())
    } else {
        s
    }
}

/// A beacon URL: the endpoint without trailing slashes, then `path`.
pub fn beacon_url(app_endpoint: &str, path: &str) -> (r: String)
    ensures
        r@ == trim_slashes(app_endpoint@) + path@,
{
    let v = crate::text::chars_of(app_endpoint);
    let mut n: usize = v.len();
    assert(v@.subrange(0, n as int) =~= v@);
    while n > 0 && v[n - 1] == '/'
        invariant
            n <= v@.len(),
            trim_slashes(v@) == trim_slashes(v@.subrange(0, n as int)),
        decreases n,
    {
        assert(v@.subrange(0, n as int).drop_last() =~= v@.subrange(0, n - 1));
        n = n - 1;
    }
    let mut r = String::from_str(app_endpoint.substring_char(0, n));
    r.append(path);
    r
}

} // verus!
