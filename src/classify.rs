//! Turning raw failure text into a user-facing message by ordered
//! substring rules.
use vstd::prelude::*;
use crate::text::{all_whitespace, all_ws, chars_of, contains, contains_seq};

verus! {

/// One error-mapping rule: a source that contains `includes` is shown `error`.
/// A rule whose `includes` is empty or whitespace is the catch-all.
#[derive(Debug, Clone)]
pub struct ApiConfigError {
    pub includes: String,
    pub error: String,
}

impl ApiConfigError {
    pub fn new(includes: String, error: String) -> (r: Self)
        ensures
            r.includes@ == includes@,
            r.error@ == error@,
    {
        ApiConfigError { includes, error }
    }
}

/// The message shown when no rule applies at all.
pub open spec fn generic_error_text() -> Seq<char> {
    "Something went wrong. Please try switching to a different model or contact support."@
}

/// `rule` fires on `source`: its pattern is non-empty and occurs in `source`.
pub open spec fn rule_fires(rule: ApiConfigError, source: Seq<char>) -> bool {
    rule.includes@.len() > 0 && contains(source, rule.includes@)
}

/// The error of the first rule that fires on `source`.
pub open spec fn first_firing(rules: Seq<ApiConfigError>, source: Seq<char>) -> Option<Seq<char>>
    decreases rules.len(),
{
    if rules.len() == 0 {
        None
    } else if rule_fires(rules[0], source) {
        Some(rules[0].error@)
    } else {
        first_firing(rules.drop_first(), source)
    }
}

/// Sources are tried in order; for the first one on which some rule fires,
/// the first such rule's error.
pub open spec fn first_source_match(rules: Seq<ApiConfigError>, sources: Seq<Seq<char>>) -> Option<
    Seq<char>,
>
    decreases sources.len(),
{
    if sources.len() == 0 {
        None
    } else {
        match first_firing(rules, sources[0]) {
            Some(e) => Some(e),
            None => first_source_match(rules, sources.drop_first()),
        }
    }
}

/// The error of the first catch-all rule (pattern empty or all whitespace).
pub open spec fn default_rule(rules: Seq<ApiConfigError>) -> Option<Seq<char>>
    decreases rules.len(),
{
    if rules.len() == 0 {
        None
    } else if all_ws(rules[0].includes@) {
        Some(rules[0].error@)
    } else {
        default_rule(rules.drop_first())
    }
}

/// The message that the rules give for the sources: a matching rule, else
/// the catch-all, else the first rule, else the built-in generic message.
pub open spec fn classify(rules: Seq<ApiConfigError>, sources: Seq<Seq<char>>) -> Seq<char> {
    match first_source_match(rules, sources) {
        Some(e) => e,
        None => match default_rule(rules) {
            Some(e) => e,
            None => if rules.len() > 0 {
                rules[0].error@
            } else {
                generic_error_text()
            },
        },
    }
}

proof fn lemma_no_rules_no_match(sources: Seq<Seq<char>>)
    ensures
        first_source_match(seq![], sources) is None,
    decreases sources.len(),
{
    if sources.len() > 0 {
        lemma_no_rules_no_match(sources.drop_first());
    }
}

/// With no rules at all, every failure is shown the built-in generic
/// message.
pub proof fn lemma_no_rules_generic(sources: Seq<Seq<char>>)
    ensures
        classify(seq![], sources) == generic_error_text(),
{
    lemma_no_rules_no_match(sources);
}

/// The views of a list of strings.
pub open spec fn views(v: Seq<String>) -> Seq<Seq<char>> {
    v.map_values(|s: String| s@)
}

fn first_firing_exec(rules: &[ApiConfigError], source: &String) -> (r: Option<String>)
    ensures
        match r {
            Some(e) => first_firing(rules@, source@) == Some(e@),
            None => first_firing(rules@, source@) is None,
        },
{
    let src = chars_of(source.as_str());
    let mut i: usize = 0;
    assert(rules@.subrange(0, rules@.len() as int) =~= rules@);
    while i < rules.len()
        invariant
            i <= rules@.len(),
            src@ == source@,
            first_firing(rules@, source@) == first_firing(rules@.subrange(i as int, rules@.len() as int), source@),
        decreases rules@.len() - i,
    {
        let rest = Ghost(rules@.subrange(i as int, rules@.len() as int));
        assert(rest@.drop_first() =~= rules@.subrange(i + 1, rules@.len() as int));
        let pat = chars_of(rules[i].includes.as_str());
        if pat.len() > 0 && contains_seq(&src, &pat) {
            return Some(rules[i].error.clone());
        }
        i = i + 1;
    }
    None
}

fn default_rule_exec(rules: &[ApiConfigError]) -> (r: Option<String>)
    ensures
        match r {
            Some(e) => default_rule(rules@) == Some(e@),
            None => default_rule(rules@) is None,
        },
{
    let mut i: usize = 0;
    assert(rules@.subrange(0, rules@.len() as int) =~= rules@);
    while i < rules.len()
        invariant
            i <= rules@.len(),
            default_rule(rules@) == default_rule(rules@.subrange(i as int, rules@.len() as int)),
        decreases rules@.len() - i,
    {
        let rest = Ghost(rules@.subrange(i as int, rules@.len() as int));
        assert(rest@.drop_first() =~= rules@.subrange(i + 1, rules@.len() as int));
        let pat = chars_of(rules[i].includes.as_str());
        if all_whitespace(&pat) {
            return Some(rules[i].error.clone());
        }
        i = i + 1;
    }
    None
}

/// The user-facing message for a failure whose raw descriptions are
/// `sources`, under the ordered `error_rules`.
pub fn map_api_error_message(error_rules: &[ApiConfigError], sources: &[String]) -> (r: String)
    ensures
        r@ == classify(error_rules@, views(sources@)),
{
    let ghost srcs = views(sources@);
    let mut j: usize = 0;
    assert(srcs.subrange(0, srcs.len() as int) =~= srcs);
    while j < sources.len()
        invariant
            j <= sources@.len(),
            srcs == views(sources@),
            first_source_match(error_rules@, srcs) == first_source_match(
                error_rules@,
                srcs.subrange(j as int, srcs.len() as int),
            ),
        decreases sources@.len() - j,
    {
        let ghost rest = srcs.subrange(j as int, srcs.len() as int);
        assert(rest.drop_first() =~= srcs.subrange(j + 1, srcs.len() as int));
        assert(rest[0] == sources@[j as int]@);
        match first_firing_exec(error_rules, &sources[j]) {
            Some(e) => {
                return e;
            },
            None => {},
        }
        j = j + 1;
    }
    assert(srcs.subrange(j as int, srcs.len() as int).len() == 0);
    match default_rule_exec(error_rules) {
        Some(e) => e,
        None => {
            if error_rules.len() > 0 {
                error_rules[0].error.clone()
            } else {
                String::from_str(
                    "Something went wrong. Please try switching to a different model or contact support.",
                )
            }
        },
    }
}

} // verus!
