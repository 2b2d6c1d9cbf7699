//! Status codes and URLs, as `reqwest` renders them.
use vstd::prelude::*;
use crate::text::opt_view;

verus! {

/// What `reqwest::StatusCode` displays for `code`: the code and its
/// canonical reason.
pub uninterp spec fn status_line_of(code: u16) -> Seq<char>;

/// The serialisation of `s` parsed as a URL, when it parses.
pub uninterp spec fn url_serialization(s: Seq<char>) -> Option<Seq<char>>;

/// A status in 200..=299.
pub open spec fn is_success_status(code: u16) -> bool {
    200 <= code && code < 300
}

/// Whether `code` is a success status, as `StatusCode::is_success` decides.
pub fn is_success(code: u16) -> (r: bool)
    ensures
        r == is_success_status(code),
{
    200 <= code && code < 300
}

/// Relies on `reqwest::StatusCode::from_u16` (accepts 100..=999) and its
/// `Display`: "<code> <canonical reason>".
#[verifier::external_body]
pub(crate) fn status_line(code: u16) -> (r: String)
    requires
        100 <= code <= 999,
    ensures
        r@ == status_line_of(code),
{
    match reqwest::StatusCode::from_u16(code) {
        Ok(s) => s.to_string(),
        Err(_) => String::new(),
    }
}

/// Relies on `reqwest::Url::parse` and `Url`'s `Display`.
#[verifier::external_body]
pub(crate) fn parse_url(s: &str) -> (r: Option<String>)
    ensures
        opt_view(r) == url_serialization(s@),
{
    match reqwest::Url::parse(s) {
        Ok(u) => Some(u.to_string()),
        Err(_) => None,
    }
}

} // verus!
