use vstd::prelude::*;

use crate::config::{redact_all, Config};
use crate::error::{error_message_spec, HybridSearchError};
use crate::text::{chars_eq, chars_of, contains_chars, contains_spec, lower_chars, lower_spec, slice_chars, str_eq, string_from_chars, string_from_range, trim_bounds, trim_spec, views};
use crate::urls::{strip_url_extras, url_stripped};
use crate::budget::{apply_response_budget, budget_spec, kept_prefix, response_total, same_but_content};
use crate::cache::{lookup, touch_spec, SourceCache};
use crate::model::{source_views, GetSourcesOutput, Source, SourceView};
use crate::text::{decimal_spec, decimal_string, push_str};
use std::sync::Arc;

verus! {

// ---------------------------------------------------------------------------
// Provider diagnostics
// ---------------------------------------------------------------------------

/// The category of a failure, as diagnostics report it.
pub open spec fn error_status_spec(e: HybridSearchError) -> Seq<char> {
    match e {
        HybridSearchError::MissingConfig(_) => "not_configured"@,
        HybridSearchError::InvalidParams(_) => "invalid_request"@,
        HybridSearchError::Parse(_) => "invalid_response"@,
        HybridSearchError::Timeout(_) => "timeout"@,
        HybridSearchError::NotFound(_) => "not_found"@,
        HybridSearchError::Provider(d) => {
            let l = lower_spec(d@);
            if contains_spec(l, "http 401"@) || contains_spec(l, "http 403"@) {
                "authentication"@
            } else if contains_spec(l, "http 429"@) || contains_spec(l, "http 432"@)
                || contains_spec(l, "http 433"@) {
                "rate_limited"@
            } else if contains_spec(l, "request failed"@) || contains_spec(l, "connect"@)
                || contains_spec(l, "dns"@) {
                "network"@
            } else {
                "provider_error"@
            }
        },
    }
}

/// A provider failure whose text, lowercased, mentions HTTP 401 or HTTP 403 is an
/// authentication failure; one that mentions HTTP 429, 432 or 433 and neither of those is
/// a rate limit; every failure that is not a provider failure keeps its own category.
pub proof fn law_error_status_categories(e: HybridSearchError)
    ensures
        e matches HybridSearchError::Provider(d) && (contains_spec(lower_spec(d@), "http 401"@)
            || contains_spec(lower_spec(d@), "http 403"@)) ==> error_status_spec(e) == "authentication"@,
        e matches HybridSearchError::Provider(d) && !contains_spec(lower_spec(d@), "http 401"@)
            && !contains_spec(lower_spec(d@), "http 403"@) && (contains_spec(lower_spec(d@), "http 429"@)
            || contains_spec(lower_spec(d@), "http 432"@) || contains_spec(lower_spec(d@), "http 433"@))
            ==> error_status_spec(e) == "rate_limited"@,
        e is Timeout ==> error_status_spec(e) == "timeout"@,
        e is MissingConfig ==> error_status_spec(e) == "not_configured"@,
        e is Parse ==> error_status_spec(e) == "invalid_response"@,
{
}

/// The category of a failure: configuration, request, response, timeout, lookup, or for a
/// provider failure its authentication, rate-limit or network cause when the text shows it.
pub fn error_status(error: &HybridSearchError) -> (r: &'static str)
    ensures
        r@ == error_status_spec(*error),
{
    match error {
        HybridSearchError::MissingConfig(_) => "not_configured",
        HybridSearchError::InvalidParams(_) => "invalid_request",
        HybridSearchError::Parse(_) => "invalid_response",
        HybridSearchError::Timeout(_) => "timeout",
        HybridSearchError::NotFound(_) => "not_found",
        HybridSearchError::Provider(detail) => {
            let l = lower_chars(&chars_of(detail.as_str()));
            if contains_chars(&l, &chars_of("http 401")) || contains_chars(&l, &chars_of("http 403")) {
                "authentication"
            } else if contains_chars(&l, &chars_of("http 429")) || contains_chars(&l, &chars_of("http 432"))
                || contains_chars(&l, &chars_of("http 433")) {
                "rate_limited"
            } else if contains_chars(&l, &chars_of("request failed")) || contains_chars(&l, &chars_of("connect"))
                || contains_chars(&l, &chars_of("dns")) {
                "network"
            } else {
                "provider_error"
            }
        },
    }
}

/// What a provider probe came to.
pub enum ProbeOutcome {
    Reachable,
    Failed(HybridSearchError),
    TimedOut,
}

/// One provider's probe, as diagnostics report it.
pub struct ProbeResult {
    pub provider: String,
    pub reachable: bool,
    pub status: String,
    pub detail: String,
}

/// The report of a probe.
pub fn probe_result(provider: &str, outcome: ProbeOutcome) -> (r: ProbeResult)
    ensures
        r.provider@ == provider@,
        r.reachable == (outcome is Reachable),
        r.status@ == match outcome {
            ProbeOutcome::Reachable => "ok"@,
            ProbeOutcome::Failed(e) => error_status_spec(e),
            ProbeOutcome::TimedOut => "timeout"@,
        },
        r.detail@ == match outcome {
            ProbeOutcome::Reachable => "reachable"@,
            ProbeOutcome::Failed(e) => error_message_spec(e),
            ProbeOutcome::TimedOut => "probe timed out"@,
        },
{
    match outcome {
        ProbeOutcome::Reachable => ProbeResult {
            provider: provider.to_owned(),
            reachable: true,
            status: "ok".to_owned(),
            detail: "reachable".to_owned(),
        },
        ProbeOutcome::Failed(error) => ProbeResult {
            provider: provider.to_owned(),
            reachable: false,
            status: error_status(&error).to_owned(),
            detail: error.message(),
        },
        ProbeOutcome::TimedOut => ProbeResult {
            provider: provider.to_owned(),
            reachable: false,
            status: "timeout".to_owned(),
            detail: "probe timed out".to_owned(),
        },
    }
}

/// The variable that configures a provider.
pub open spec fn provider_key_name_spec(provider: Seq<char>) -> Seq<char> {
    if provider == "chatgpt2api"@ {
        "CHATGPT2API_API_URL + CHATGPT2API_API_KEY"@
    } else if provider == "tavily"@ {
        "TAVILY_API_KEY"@
    } else if provider == "firecrawl"@ {
        "FIRECRAWL_API_KEY"@
    } else if provider == "tinyfish"@ {
        "TINYFISH_API_KEY"@
    } else if provider == "exa"@ {
        "EXA_API_KEY"@
    } else {
        "provider credentials"@
    }
}

/// The variable that configures a provider.
pub fn provider_key_name(provider: &str) -> (r: &'static str)
    ensures
        r@ == provider_key_name_spec(provider@),
{
    if str_eq(provider, "chatgpt2api") {
        "CHATGPT2API_API_URL + CHATGPT2API_API_KEY"
    } else if str_eq(provider, "tavily") {
        "TAVILY_API_KEY"
    } else if str_eq(provider, "firecrawl") {
        "FIRECRAWL_API_KEY"
    } else if str_eq(provider, "tinyfish") {
        "TINYFISH_API_KEY"
    } else if str_eq(provider, "exa") {
        "EXA_API_KEY"
    } else {
        "provider credentials"
    }
}

/// An endpoint as diagnostics show it: without credentials, query or fragment, and with
/// every configured secret masked.
pub open spec fn redact_endpoint_spec(c: Config, endpoint: Seq<char>) -> Seq<char> {
    match url_stripped(endpoint) {
        Some(u) => redact_all(u, c.secrets_spec()),
        None => redact_all(endpoint, c.secrets_spec()),
    }
}

pub fn redact_endpoint(config: &Config, endpoint: &str) -> (r: String)
    ensures
        r@ == redact_endpoint_spec(*config, endpoint@),
{
    match strip_url_extras(endpoint) {
        Some(u) => config.redact_text(u.as_str()),
        None => config.redact_text(endpoint),
    }
}

/// Diagnostics show no credential in an endpoint: a credential of the configuration that is
/// not empty and holds no `*` occurs nowhere in a redacted endpoint.
pub proof fn law_endpoint_hides_credentials(c: Config, endpoint: Seq<char>, k: int)
    requires
        0 <= k < c.secrets_spec().len(),
        c.secrets_spec()[k].len() > 0,
        !c.secrets_spec()[k].contains('*'),
    ensures
        !contains_spec(redact_endpoint_spec(c, endpoint), c.secrets_spec()[k]),
{
    match url_stripped(endpoint) {
        Some(u) => crate::config::law_redaction_hides_secret(u, c.secrets_spec(), k),
        None => crate::config::law_redaction_hides_secret(endpoint, c.secrets_spec(), k),
    }
}

/// The endpoints a provider calls.
pub open spec fn endpoints_spec(c: Config, provider: Seq<char>) -> Seq<Seq<char>> {
    if provider == "chatgpt2api"@ {
        match c.chatgpt2api_api_url {
            Some(u) => seq![u@],
            None => seq![],
        }
    } else if provider == "tavily"@ {
        seq![c.tavily_api_url@]
    } else if provider == "firecrawl"@ {
        seq![c.firecrawl_api_url@]
    } else if provider == "tinyfish"@ {
        seq![c.tinyfish_search_api_url@, c.tinyfish_fetch_api_url@]
    } else if provider == "exa"@ {
        seq![c.exa_api_url@]
    } else {
        seq![]
    }
}

/// The endpoints of a provider, each redacted.
pub fn provider_endpoints(config: &Config, provider: &str) -> (r: Vec<String>)
    ensures
        views(r@) == endpoints_spec(*config, provider@).map_values(
            |e: Seq<char>| redact_endpoint_spec(*config, e),
        ),
{
    let mut raw: Vec<&String> = Vec::new();
    if str_eq(provider, "chatgpt2api") {
        if let Some(u) = &config.chatgpt2api_api_url {
            raw.push(u);
        }
    } else if str_eq(provider, "tavily") {
        raw.push(&config.tavily_api_url);
    } else if str_eq(provider, "firecrawl") {
        raw.push(&config.firecrawl_api_url);
    } else if str_eq(provider, "tinyfish") {
        raw.push(&config.tinyfish_search_api_url);
        raw.push(&config.tinyfish_fetch_api_url);
    } else if str_eq(provider, "exa") {
        raw.push(&config.exa_api_url);
    }
    let ghost ends = endpoints_spec(*config, provider@);
    assert(raw@.map_values(|s: &String| s@) =~= ends);
    let mut out: Vec<String> = Vec::new();
    let mut i: usize = 0;
    while i < raw.len()
        invariant
            i <= raw.len(),
            raw@.map_values(|s: &String| s@) == ends,
            views(out@) == ends.subrange(0, i as int).map_values(|e: Seq<char>| redact_endpoint_spec(*config, e)),
        decreases raw.len() - i,
    {
        let r = redact_endpoint(config, raw[i].as_str());
        let ghost before = views(out@);
        out.push(r);
        assert(views(out@) =~= before.push(r@));
        assert(ends[i as int] == raw@[i as int]@);
        assert(ends.subrange(0, i + 1).map_values(|e: Seq<char>| redact_endpoint_spec(*config, e))
            =~= ends.subrange(0, i as int).map_values(|e: Seq<char>| redact_endpoint_spec(*config, e)).push(redact_endpoint_spec(*config, ends[i as int])));
        assert(views(out@) =~= ends.subrange(0, i + 1).map_values(|e: Seq<char>| redact_endpoint_spec(*config, e)));
        i += 1;
    }
    assert(ends.subrange(0, ends.len() as int) == ends);
    out
}

// ---------------------------------------------------------------------------
// Request parameters
// ---------------------------------------------------------------------------

/// Each domain trimmed and lowercased; blanks and repeats dropped, first occurrence kept.
pub open spec fn normalize_domains_spec(domains: Seq<Seq<char>>) -> Seq<Seq<char>>
    decreases domains.len(),
{
    if domains.len() == 0 {
        seq![]
    } else {
        let r = normalize_domains_spec(domains.drop_last());
        let d = lower_spec(trim_spec(domains.last()));
        if d.len() > 0 && !r.contains(d) { r.push(d) } else { r }
    }
}

fn contains_string(v: &Vec<String>, d: &Vec<char>) -> (r: bool)
    ensures
        r == views(v@).contains(d@),
{
    let ghost vv = views(v@);
    let mut i: usize = 0;
    while i < v.len()
        invariant
            i <= v.len(),
            vv == views(v@),
            forall|j: int| 0 <= j < i ==> vv[j] != d@,
        decreases v.len() - i,
    {
        if chars_eq(&chars_of(v[i].as_str()), d) {
            assert(vv[i as int] == d@);
            return true;
        }
        i += 1;
    }
    proof {
        if vv.contains(d@) {
            let j = choose|j: int| 0 <= j < vv.len() && vv[j] == d@;
            assert(vv[j] != d@);
        }
    }
    false
}

/// Normalized domains are not empty and occur once each.
pub proof fn law_domains_unique(domains: Seq<Seq<char>>)
    ensures
        forall|i: int| 0 <= i < normalize_domains_spec(domains).len() ==> (#[trigger] normalize_domains_spec(domains)[i]).len() > 0,
        forall|i: int, j: int| 0 <= i < j < normalize_domains_spec(domains).len()
            ==> #[trigger] normalize_domains_spec(domains)[i] != #[trigger] normalize_domains_spec(domains)[j],
    decreases domains.len(),
{
    if domains.len() > 0 {
        law_domains_unique(domains.drop_last());
        let r = normalize_domains_spec(domains.drop_last());
        let d = lower_spec(trim_spec(domains.last()));
        if d.len() > 0 && !r.contains(d) {
            let n = r.push(d);
            assert forall|i: int, j: int| 0 <= i < j < n.len() implies #[trigger] n[i] != #[trigger] n[j] by {
                if j == n.len() - 1 {
                    assert(n[i] == r[i]);
                    assert(r.contains(r[i]));
                }
            }
        }
    }
}

proof fn lemma_lower_char(c: char)
    ensures
        crate::text::spec_is_whitespace(crate::text::lower_char(c)) == crate::text::spec_is_whitespace(c),
        crate::text::lower_char(crate::text::lower_char(c)) == crate::text::lower_char(c),
{
}

proof fn lemma_trim_start_lower(s: Seq<char>)
    ensures
        crate::text::trim_start_spec(lower_spec(s)) == lower_spec(crate::text::trim_start_spec(s)),
    decreases s.len(),
{
    if s.len() > 0 {
        lemma_lower_char(s[0]);
        assert(lower_spec(s)[0] == crate::text::lower_char(s[0]));
        if crate::text::spec_is_whitespace(s[0]) {
            assert(lower_spec(s).drop_first() =~= lower_spec(s.drop_first()));
            lemma_trim_start_lower(s.drop_first());
        }
    }
}

proof fn lemma_trim_end_lower(s: Seq<char>)
    ensures
        crate::text::trim_end_spec(lower_spec(s)) == lower_spec(crate::text::trim_end_spec(s)),
    decreases s.len(),
{
    if s.len() > 0 {
        lemma_lower_char(s.last());
        assert(lower_spec(s).last() == crate::text::lower_char(s.last()));
        if crate::text::spec_is_whitespace(s.last()) {
            assert(lower_spec(s).drop_last() =~= lower_spec(s.drop_last()));
            lemma_trim_end_lower(s.drop_last());
        }
    }
}

/// A normalized domain normalizes to itself.
proof fn lemma_domain_normal_form(x: Seq<char>)
    ensures
        lower_spec(trim_spec(lower_spec(trim_spec(x)))) == lower_spec(trim_spec(x)),
{
    let t = trim_spec(x);
    let e = lower_spec(t);
    lemma_trim_start_lower(t);
    lemma_trim_end_lower(crate::text::trim_start_spec(t));
    crate::config::lemma_trim_idempotent(x);
    assert(trim_spec(e) == e);
    assert forall|i: int| 0 <= i < e.len() implies #[trigger] lower_spec(e)[i] == e[i] by {
        lemma_lower_char(t[i]);
    }
    assert(lower_spec(e) =~= e);
}

proof fn lemma_normalized_elements(domains: Seq<Seq<char>>)
    ensures
        forall|i: int| 0 <= i < normalize_domains_spec(domains).len()
            ==> lower_spec(trim_spec(#[trigger] normalize_domains_spec(domains)[i])) == normalize_domains_spec(domains)[i],
    decreases domains.len(),
{
    if domains.len() > 0 {
        lemma_normalized_elements(domains.drop_last());
        lemma_domain_normal_form(domains.last());
        let r = normalize_domains_spec(domains.drop_last());
        let n = normalize_domains_spec(domains);
        assert forall|i: int| 0 <= i < n.len() implies lower_spec(trim_spec(#[trigger] n[i])) == n[i] by {
            if i < r.len() {
                assert(n[i] == r[i]);
            }
        }
    }
}

proof fn lemma_normalize_fixed(l: Seq<Seq<char>>)
    requires
        forall|i: int| 0 <= i < l.len() ==> (#[trigger] l[i]).len() > 0 && lower_spec(trim_spec(l[i])) == l[i],
        forall|i: int, j: int| 0 <= i < j < l.len() ==> #[trigger] l[i] != #[trigger] l[j],
    ensures
        normalize_domains_spec(l) == l,
    decreases l.len(),
{
    if l.len() > 0 {
        let p = l.drop_last();
        assert forall|i: int| 0 <= i < p.len() implies (#[trigger] p[i]).len() > 0 && lower_spec(trim_spec(p[i])) == p[i] by {
            assert(p[i] == l[i]);
        }
        assert forall|i: int, j: int| 0 <= i < j < p.len() implies #[trigger] p[i] != #[trigger] p[j] by {
            assert(p[i] == l[i] && p[j] == l[j]);
        }
        lemma_normalize_fixed(p);
        let d = l.last();
        assert(l[l.len() - 1] == d);
        if p.contains(d) {
            let j = choose|j: int| 0 <= j < p.len() && p[j] == d;
            assert(l[j] == p[j]);
        }
        assert(p.push(d) =~= l);
    }
}

/// Normalizing domain filters twice is normalizing them once.
pub proof fn law_domains_idempotent(domains: Seq<Seq<char>>)
    ensures
        normalize_domains_spec(normalize_domains_spec(domains)) == normalize_domains_spec(domains),
{
    law_domains_unique(domains);
    lemma_normalized_elements(domains);
    lemma_normalize_fixed(normalize_domains_spec(domains));
}

/// Cutting a text keeps at most `limit` characters, a prefix of the text, and says so
/// exactly when the text was longer.
pub proof fn law_truncate_prefix(content: Seq<char>, limit: usize)
    ensures
        truncate_spec(content, Some(limit)).0.len() <= limit,
        truncate_spec(content, Some(limit)).0 == content.take(truncate_spec(content, Some(limit)).0.len() as int),
        truncate_spec(content, Some(limit)).1 == (content.len() > limit),
{
    if content.len() <= limit {
        assert(content.take(content.len() as int) == content);
    }
}

/// The domain filters of a request, trimmed, lowercased, without blanks or repeats.
pub fn normalize_domains(domains: Vec<String>) -> (r: Vec<String>)
    ensures
        views(r@) == normalize_domains_spec(views(domains@)),
{
    let ghost dv = views(domains@);
    let mut out: Vec<String> = Vec::new();
    let mut i: usize = 0;
    while i < domains.len()
        invariant
            i <= domains.len(),
            dv == views(domains@),
            views(out@) == normalize_domains_spec(dv.subrange(0, i as int)),
        decreases domains.len() - i,
    {
        assert(dv.subrange(0, i + 1).drop_last() == dv.subrange(0, i as int));
        assert(dv.subrange(0, i + 1).last() == domains@[i as int]@);
        let raw = chars_of(domains[i].as_str());
        let (s, e) = trim_bounds(&raw);
        let d = lower_chars(&slice_chars(&raw, s, e));
        if d.len() > 0 && !contains_string(&out, &d) {
            let ds = string_from_chars(&d);
            let ghost before = views(out@);
            out.push(ds);
            assert(views(out@) =~= before.push(d@));
        }
        i += 1;
    }
    assert(dv.subrange(0, dv.len() as int) == dv);
    out
}

/// `content` cut to its first `limit` characters, and whether anything was cut.
pub open spec fn truncate_spec(content: Seq<char>, limit: Option<usize>) -> (Seq<char>, bool) {
    match limit {
        Some(l) => if content.len() <= l { (content, false) } else { (content.take(l as int), true) },
        None => (content, false),
    }
}

/// Cuts `content` to at most `limit` characters and says whether it did.
pub fn truncate_text(content: String, limit: Option<usize>) -> (r: (String, bool))
    ensures
        (r.0@, r.1) == truncate_spec(content@, limit),
{
    match limit {
        None => (content, false),
        Some(l) => {
            let c = chars_of(content.as_str());
            if c.len() <= l {
                (content, false)
            } else {
                (string_from_range(&c, 0, l), true)
            }
        }
    }
}

// ---------------------------------------------------------------------------
// Cached sessions
// ---------------------------------------------------------------------------

fn copy_opt(o: &Option<String>) -> (r: Option<String>)
    ensures
        r == *o,
{
    match o {
        Some(s) => Some(s.clone()),
        None => None,
    }
}

/// A copy of a source.
pub fn copy_source(s: &Source) -> (r: Source)
    ensures
        r@ == s@,
{
    Source {
        url: s.url.clone(),
        provider: s.provider.clone(),
        title: copy_opt(&s.title),
        description: copy_opt(&s.description),
        published_date: copy_opt(&s.published_date),
        content: copy_opt(&s.content),
    }
}

/// Copies of `v[from..to]`.
pub fn copy_sources(v: &Vec<Source>, from: usize, to: usize) -> (r: Vec<Source>)
    requires
        from <= to <= v.len(),
    ensures
        source_views(r@) == source_views(v@).subrange(from as int, to as int),
        r@.len() == to - from,
{
    let mut out: Vec<Source> = Vec::new();
    let mut i = from;
    while i < to
        invariant
            from <= i <= to <= v.len(),
            source_views(out@) == source_views(v@).subrange(from as int, i as int),
            out@.len() == i - from,
        decreases to - i,
    {
        let c = copy_source(&v[i]);
        let ghost before = source_views(out@);
        out.push(c);
        assert(source_views(out@) =~= before.push(v@[i as int]@));
        assert(source_views(v@).subrange(from as int, i + 1) =~= source_views(v@).subrange(from as int, i as int).push(v@[i as int]@));
        i += 1;
    }
    out
}

/// The page `[start, end)` that `offset` and `limit` select from `total` sources.
pub open spec fn page_bounds(total: nat, offset: nat, limit: Option<usize>) -> (nat, nat) {
    let start = if offset <= total { offset } else { total };
    let end = match limit {
        Some(l) => {
            let e = crate::budget::sat_add(start, l as nat);
            if e <= total { e } else { total }
        },
        None => total,
    };
    (start, end)
}

pub open spec fn page_hint_spec(sid: Seq<char>, next_offset: Option<usize>) -> Seq<char> {
    match next_offset {
        Some(n) => "This page was trimmed to fit the configured budget. Use web_fetch(url) for full page content and continue with get_sources(session_id=\""@
            + sid + "\", offset="@ + decimal_spec(n as nat) + ")."@,
        None => "This page was trimmed to fit the configured budget. Use web_fetch(url) for full page content."@,
    }
}

/// What `get_sources` answers for a cached session.
pub open spec fn page_matches(o: GetSourcesOutput, cached: Seq<SourceView>, sid: Seq<char>, offset: nat, limit: Option<usize>, budget: nat) -> bool {
    let (start, end) = page_bounds(cached.len(), offset, limit);
    let page = cached.subrange(start as int, end as int);
    let shown = budget_spec(0, page, budget, sid, start);
    &&& o.session_id@ == sid
    &&& o.total_sources == cached.len()
    &&& o.offset == start
    &&& source_views(o.sources@) == shown
    &&& o.sources_count == shown.len()
    &&& o.next_offset == if start + shown.len() < cached.len() { Some((start + shown.len()) as usize) } else { None }
    &&& o.truncated == (response_total(0, page) > budget)
    &&& match o.recovery_hint {
        Some(h) => o.truncated && h@ == page_hint_spec(sid, o.next_offset),
        None => !o.truncated,
    }
}


/// A session read from its start, without a limit and within the budget, gives back every
/// source that the search cached, unchanged.
pub proof fn law_read_back_whole_session(cached: Seq<SourceView>, sid: Seq<char>, budget: nat)
    requires
        response_total(0, cached) <= budget,
    ensures
        ({
            let (start, end) = page_bounds(cached.len(), 0, None);
            start == 0 && end == cached.len()
                && budget_spec(0, cached.subrange(start as int, end as int), budget, sid, start) == cached
        }),
{
    assert(cached.subrange(0, cached.len() as int) == cached);
}

/// Paging through a session always moves forward: a page that starts before the end of
/// the cached list and may hold a source shows at least one, so the next page starts
/// after it.
pub proof fn law_pages_progress(cached: Seq<SourceView>, sid: Seq<char>, offset: nat, limit: Option<usize>, budget: nat)
    requires
        offset < cached.len(),
        cached.len() <= usize::MAX,
        limit != Some(0usize),
    ensures
        ({
            let (start, end) = page_bounds(cached.len(), offset, limit);
            let shown = budget_spec(0, cached.subrange(start as int, end as int), budget, sid, start);
            shown.len() >= 1 && start + shown.len() > offset
        }),
{
    let (start, end) = page_bounds(cached.len(), offset, limit);
    assert(start == offset);
    assert(start < end);
    crate::budget::law_budget_keeps_sources(0, cached.subrange(start as int, end as int), budget, sid, start);
}

/// The sources that a client reads by paging through a session from `offset`: each page's
/// sources, then the pages from its `next_offset`, until no next page is left.
pub open spec fn pages_from(cached: Seq<SourceView>, sid: Seq<char>, offset: nat, limit: Option<usize>, budget: nat) -> Seq<SourceView>
    decreases cached.len() - offset,
{
    if offset >= cached.len() || limit == Some(0usize) || cached.len() > usize::MAX {
        seq![]
    } else {
        let (start, end) = page_bounds(cached.len(), offset, limit);
        let shown = budget_spec(0, cached.subrange(start as int, end as int), budget, sid, start);
        let next = start + shown.len();
        if next < cached.len() {
            proof {
                law_pages_progress(cached, sid, offset, limit, budget);
            }
            shown + pages_from(cached, sid, next, limit, budget)
        } else {
            shown
        }
    }
}

/// Paging through a session from its start, with any limit but zero, returns every cached
/// source exactly once and in order, however the pages were trimmed: only inline content
/// may be cut.
pub proof fn law_pages_cover_session(cached: Seq<SourceView>, sid: Seq<char>, limit: Option<usize>, budget: nat)
    requires
        limit != Some(0usize),
        cached.len() <= usize::MAX,
    ensures
        kept_prefix(cached, pages_from(cached, sid, 0, limit, budget)),
        pages_from(cached, sid, 0, limit, budget).len() == cached.len(),
{
    lemma_pages_cover(cached, sid, 0, limit, budget);
    let p = pages_from(cached, sid, 0, limit, budget);
    assert forall|i: int| 0 <= i < p.len() implies same_but_content(cached[i], #[trigger] p[i]) by {
        assert(cached[0 + i] == cached[i]);
    }
}

proof fn lemma_pages_cover(cached: Seq<SourceView>, sid: Seq<char>, offset: nat, limit: Option<usize>, budget: nat)
    requires
        limit != Some(0usize),
        cached.len() <= usize::MAX,
        offset <= cached.len(),
    ensures
        pages_from(cached, sid, offset, limit, budget).len() == cached.len() - offset,
        forall|i: int| 0 <= i < cached.len() - offset
            ==> same_but_content(cached[offset + i], #[trigger] pages_from(cached, sid, offset, limit, budget)[i]),
    decreases cached.len() - offset,
{
    if offset < cached.len() {
        let (start, end) = page_bounds(cached.len(), offset, limit);
        let page = cached.subrange(start as int, end as int);
        let shown = budget_spec(0, page, budget, sid, start);
        let next = start + shown.len();
        law_pages_progress(cached, sid, offset, limit, budget);
        crate::budget::law_budget_keeps_sources(0, page, budget, sid, start);
        assert(start == offset);
        let p = pages_from(cached, sid, offset, limit, budget);
        if next < cached.len() {
            lemma_pages_cover(cached, sid, next, limit, budget);
            let rest = pages_from(cached, sid, next, limit, budget);
            assert(p == shown + rest);
            assert forall|i: int| 0 <= i < cached.len() - offset implies same_but_content(cached[offset + i], #[trigger] p[i]) by {
                if i < shown.len() {
                    assert(p[i] == shown[i]);
                    assert(page[i] == cached[offset + i]);
                } else {
                    assert(p[i] == rest[i - shown.len()]);
                    assert(next + (i - shown.len()) == offset + i);
                }
            }
        } else {
            assert(p == shown);
            assert forall|i: int| 0 <= i < cached.len() - offset implies same_but_content(cached[offset + i], #[trigger] p[i]) by {
                assert(page[i] == cached[offset + i]);
            }
        }
    }
}

/// Reads a page of a cached session: `offset` and `limit` select the sources, the page is
/// trimmed to `budget`, and the answer says where the next page starts. A read makes the
/// session the most recently used one.
pub fn get_sources(
    cache: &mut SourceCache,
    session_id: &str,
    offset: usize,
    limit: Option<usize>,
    budget: usize,
) -> (r: Result<GetSourcesOutput, HybridSearchError>)
    requires
        old(cache).wf(),
    ensures
        final(cache).wf(),
        final(cache).capacity_spec() == old(cache).capacity_spec(),
        match lookup(old(cache)@, session_id@) {
            Some(v) => final(cache)@ == touch_spec(old(cache)@, session_id@, v) && match r {
                Ok(o) => page_matches(o, source_views(v@), session_id@, offset as nat, limit, budget as nat),
                Err(_) => false,
            },
            None => final(cache)@ == old(cache)@ && match r {
                Err(HybridSearchError::NotFound(m)) => m@ == "session_id="@ + session_id@,
                _ => false,
            },
        },
{
    let cached = match cache.get(session_id) {
        Some(c) => c,
        None => {
            let mut m = String::new();
            push_str(&mut m, "session_id=");
            push_str(&mut m, session_id);
            return Err(HybridSearchError::NotFound(m));
        }
    };
    let list: &Vec<Source> = &cached;
    let total_sources = list.len();
    let start = if offset <= total_sources { offset } else { total_sources };
    let end = match limit {
        Some(l) => {
            let e = start.saturating_add(l);
            if e <= total_sources { e } else { total_sources }
        }
        None => total_sources,
    };
    let mut sources = copy_sources(list, start, end);
    let truncated = apply_response_budget(None, &mut sources, budget, session_id, start);
    let shown = sources.len();
    let next_offset = if start + shown < total_sources { Some(start + shown) } else { None };
    let recovery_hint = if truncated {
        let mut h = String::new();
        match next_offset {
            Some(n) => {
                push_str(&mut h, "This page was trimmed to fit the configured budget. Use web_fetch(url) for full page content and continue with get_sources(session_id=\"");
                push_str(&mut h, session_id);
                push_str(&mut h, "\", offset=");
                let d = decimal_string(n as u64);
                push_str(&mut h, d.as_str());
                push_str(&mut h, ").");
            }
            None => {
                push_str(&mut h, "This page was trimmed to fit the configured budget. Use web_fetch(url) for full page content.");
            }
        }
        Some(h)
    } else {
        None
    };
    Ok(GetSourcesOutput {
        session_id: session_id.to_owned(),
        sources_count: shown,
        sources,
        total_sources,
        offset: start,
        next_offset,
        truncated,
        recovery_hint,
    })
}

} // verus!
