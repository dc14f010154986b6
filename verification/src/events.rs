use vstd::prelude::*;

use crate::config::Config;
use crate::error::HybridSearchError;
use crate::flow::SearchPlan;
use crate::json::{has_shape, object_shaped, push_shaped, str_value, JsonNumber, JsonShape, JsonValue};
use crate::model::{opt_view, provider_name_spec, ResponseFormat, WebSearchOutput};
use crate::providers::{json_count, json_strings};
use crate::service::{error_status, error_status_spec};
use crate::text::{chars_of, decimal_string, push_str, views};

verus! {

// ---------------------------------------------------------------------------
// The payloads of diagnostic events
// ---------------------------------------------------------------------------

/// The shape of an optional string member: the string, or `null`.
pub open spec fn opt_str_shape(o: Option<Seq<char>>) -> JsonShape {
    match o {
        Some(s) => JsonShape::Str(s),
        None => JsonShape::Null,
    }
}

/// The name of a response format, as requests spell it.
pub open spec fn format_name_spec(f: ResponseFormat) -> Seq<char> {
    match f {
        ResponseFormat::Concise => "concise"@,
        ResponseFormat::Detailed => "detailed"@,
    }
}

/// What the event that opens the service records: the provider orders, the providers that
/// have credentials, and the deadline of a tool call.
pub open spec fn service_started_shapes(c: Config) -> Seq<(Seq<char>, JsonShape)> {
    seq![
        ("provider_order"@, JsonShape::StrArray(c.effective_order_spec())),
        ("source_provider_order"@, JsonShape::StrArray(views(c.source_providers@))),
        ("configured_providers"@, JsonShape::StrArray(c.configured_providers_spec())),
        ("timeout_seconds"@, JsonShape::Count(c.timeout_seconds as nat)),
    ]
}

/// What the event that opens a search records: the length of the query, the provider asked
/// for, the response format, the recency filter and how many domains each filter lists.
pub open spec fn search_started_shapes(plan: SearchPlan, format: Option<ResponseFormat>) -> Seq<(Seq<char>, JsonShape)> {
    seq![
        ("query_length"@, JsonShape::Count(plan.query@.len())),
        ("provider"@, opt_str_shape(match plan.provider {
            Some(p) => Some(provider_name_spec(p)),
            None => None,
        })),
        ("response_format"@, opt_str_shape(match format {
            Some(f) => Some(format_name_spec(f)),
            None => None,
        })),
        ("recency_days"@, match plan.filters.recency_days {
            Some(d) => JsonShape::Count(d as nat),
            None => JsonShape::Null,
        }),
        ("include_domains_count"@, JsonShape::Count(plan.filters.include_domains@.len())),
        ("exclude_domains_count"@, JsonShape::Count(plan.filters.exclude_domains@.len())),
    ]
}

/// What the event that closes a search records: the route it took and the size of its
/// answer.
pub open spec fn search_completed_shapes(o: WebSearchOutput) -> Seq<(Seq<char>, JsonShape)> {
    seq![
        ("provider"@, JsonShape::Str(o.search_provider@)),
        ("supplemental_provider"@, opt_str_shape(opt_view(o.supplemental_provider))),
        ("sources_count"@, JsonShape::Count(o.sources_count as nat)),
        ("fallback_used"@, JsonShape::Bool(o.fallback_used)),
        ("truncated"@, JsonShape::Bool(o.truncated)),
    ]
}

/// What a provider failure records: the provider and the category of the failure, never
/// the failure's own text.
pub open spec fn provider_failed_shapes(provider: Seq<char>, e: HybridSearchError) -> Seq<(Seq<char>, JsonShape)> {
    let status = error_status_spec(e);
    seq![
        ("provider"@, JsonShape::Str(provider)),
        ("status"@, JsonShape::Str(status)),
        ("detail"@, JsonShape::Str(provider + " request failed: "@ + status)),
    ]
}

/// What a provider that ran out of time records.
pub open spec fn deadline_shapes(provider: Seq<char>) -> Seq<(Seq<char>, JsonShape)> {
    seq![
        ("provider"@, JsonShape::Str(provider)),
        ("status"@, JsonShape::Str("timeout"@)),
        ("detail"@, JsonShape::Str("request deadline reached"@)),
    ]
}

/// What a finished provider search records: the provider and how many sources it gave.
pub open spec fn provider_searched_shapes(provider: Seq<char>, count: nat) -> Seq<(Seq<char>, JsonShape)> {
    seq![("provider"@, JsonShape::Str(provider)), ("sources_count"@, JsonShape::Count(count))]
}

/// What a finished page fetch records: the provider and the length of the page.
pub open spec fn provider_fetched_shapes(provider: Seq<char>, content: Seq<char>) -> Seq<(Seq<char>, JsonShape)> {
    seq![("provider"@, JsonShape::Str(provider)), ("content_length"@, JsonShape::Count(content.len()))]
}

/// A JSON number that holds `n`.
fn json_u64(n: u64) -> (v: JsonValue)
    ensures
        has_shape(v, JsonShape::Count(n as nat)),
{
    let integer = if n <= i64::MAX as u64 { Some(n as i64) } else { None };
    JsonValue::Number(JsonNumber { text: decimal_string(n), integer })
}

/// A JSON array of the names.
fn json_names(items: &Vec<&'static str>) -> (v: JsonValue)
    ensures
        has_shape(v, JsonShape::StrArray(items@.map_values(|s: &'static str| s@))),
{
    let ghost want = items@.map_values(|s: &'static str| s@);
    let mut out: Vec<JsonValue> = Vec::new();
    let mut i: usize = 0;
    while i < items.len()
        invariant
            i <= items.len(),
            out@.len() == i,
            want == items@.map_values(|s: &'static str| s@),
            forall|j: int| 0 <= j < i ==> ((#[trigger] out@[j]) matches JsonValue::Str(s) && s@ == want[j]),
        decreases items.len() - i,
    {
        out.push(JsonValue::Str(items[i].to_owned()));
        i += 1;
    }
    JsonValue::Array(out)
}

/// A JSON string holding the text, or `null`.
fn nullable(o: Option<&str>) -> (v: JsonValue)
    ensures
        has_shape(v, opt_str_shape(match o {
            Some(s) => Some(s@),
            None => None,
        })),
{
    match o {
        Some(s) => str_value(s),
        None => JsonValue::Null,
    }
}

/// The payload of the event that opens the service.
pub fn service_started_payload(config: &Config) -> (v: JsonValue)
    ensures
        object_shaped(v, service_started_shapes(*config)),
{
    let mut m: Vec<(String, JsonValue)> = Vec::new();
    let ghost s0: Seq<(Seq<char>, JsonShape)> = seq![];
    let order = config.effective_provider_order();
    push_shaped(&mut m, "provider_order", json_strings(&order), Ghost(s0), Ghost(JsonShape::StrArray(config.effective_order_spec())));
    let ghost s1 = s0.push(("provider_order"@, JsonShape::StrArray(config.effective_order_spec())));
    push_shaped(&mut m, "source_provider_order", json_strings(&config.source_providers), Ghost(s1), Ghost(JsonShape::StrArray(views(config.source_providers@))));
    let ghost s2 = s1.push(("source_provider_order"@, JsonShape::StrArray(views(config.source_providers@))));
    let configured = config.configured_providers();
    push_shaped(&mut m, "configured_providers", json_names(&configured), Ghost(s2), Ghost(JsonShape::StrArray(config.configured_providers_spec())));
    let ghost s3 = s2.push(("configured_providers"@, JsonShape::StrArray(config.configured_providers_spec())));
    push_shaped(&mut m, "timeout_seconds", json_u64(config.timeout_seconds), Ghost(s3), Ghost(JsonShape::Count(config.timeout_seconds as nat)));
    assert(s3.push(("timeout_seconds"@, JsonShape::Count(config.timeout_seconds as nat))) =~= service_started_shapes(*config));
    JsonValue::Object(m)
}

/// The payload of the event that opens a search: the query's length, never its text.
pub fn search_started_payload(plan: &SearchPlan, format: Option<ResponseFormat>) -> (v: JsonValue)
    ensures
        object_shaped(v, search_started_shapes(*plan, format)),
{
    let ghost shapes = search_started_shapes(*plan, format);
    let mut m: Vec<(String, JsonValue)> = Vec::new();
    let ghost s0: Seq<(Seq<char>, JsonShape)> = seq![];
    let query_length = chars_of(plan.query.as_str()).len();
    push_shaped(&mut m, "query_length", json_count(query_length), Ghost(s0), Ghost(shapes[0].1));
    let provider = match plan.provider {
        Some(p) => Some(p.as_str()),
        None => None,
    };
    assert(s0.push(shapes[0]) =~= shapes.take(1));
    push_shaped(&mut m, "provider", nullable(provider), Ghost(shapes.take(1)), Ghost(shapes[1].1));
    assert(shapes.take(1).push(shapes[1]) =~= shapes.take(2));
    let format_name = match format {
        Some(ResponseFormat::Concise) => Some("concise"),
        Some(ResponseFormat::Detailed) => Some("detailed"),
        None => None,
    };
    push_shaped(&mut m, "response_format", nullable(format_name), Ghost(shapes.take(2)), Ghost(shapes[2].1));
    assert(shapes.take(2).push(shapes[2]) =~= shapes.take(3));
    let recency = match plan.filters.recency_days {
        Some(d) => json_u64(d as u64),
        None => JsonValue::Null,
    };
    push_shaped(&mut m, "recency_days", recency, Ghost(shapes.take(3)), Ghost(shapes[3].1));
    assert(shapes.take(3).push(shapes[3]) =~= shapes.take(4));
    push_shaped(&mut m, "include_domains_count", json_count(plan.filters.include_domains.len()), Ghost(shapes.take(4)), Ghost(shapes[4].1));
    assert(shapes.take(4).push(shapes[4]) =~= shapes.take(5));
    push_shaped(&mut m, "exclude_domains_count", json_count(plan.filters.exclude_domains.len()), Ghost(shapes.take(5)), Ghost(shapes[5].1));
    assert(shapes.take(5).push(shapes[5]) =~= shapes);
    JsonValue::Object(m)
}

/// The payload of the event that closes a search.
pub fn search_completed_payload(output: &WebSearchOutput) -> (v: JsonValue)
    ensures
        object_shaped(v, search_completed_shapes(*output)),
{
    let ghost shapes = search_completed_shapes(*output);
    let mut m: Vec<(String, JsonValue)> = Vec::new();
    let ghost s0: Seq<(Seq<char>, JsonShape)> = seq![];
    push_shaped(&mut m, "provider", str_value(output.search_provider.as_str()), Ghost(s0), Ghost(shapes[0].1));
    assert(s0.push(shapes[0]) =~= shapes.take(1));
    let supplemental = match &output.supplemental_provider {
        Some(p) => Some(p.as_str()),
        None => None,
    };
    push_shaped(&mut m, "supplemental_provider", nullable(supplemental), Ghost(shapes.take(1)), Ghost(shapes[1].1));
    assert(shapes.take(1).push(shapes[1]) =~= shapes.take(2));
    push_shaped(&mut m, "sources_count", json_count(output.sources_count), Ghost(shapes.take(2)), Ghost(shapes[2].1));
    assert(shapes.take(2).push(shapes[2]) =~= shapes.take(3));
    push_shaped(&mut m, "fallback_used", JsonValue::Bool(output.fallback_used), Ghost(shapes.take(3)), Ghost(shapes[3].1));
    assert(shapes.take(3).push(shapes[3]) =~= shapes.take(4));
    push_shaped(&mut m, "truncated", JsonValue::Bool(output.truncated), Ghost(shapes.take(4)), Ghost(shapes[4].1));
    assert(shapes.take(4).push(shapes[4]) =~= shapes);
    JsonValue::Object(m)
}

/// The payload of a provider failure: its category, never the failure's text.
pub fn provider_failed_payload(provider: &str, error: &HybridSearchError) -> (v: JsonValue)
    ensures
        object_shaped(v, provider_failed_shapes(provider@, *error)),
{
    let ghost shapes = provider_failed_shapes(provider@, *error);
    let status = error_status(error);
    let mut detail = provider.to_owned();
    push_str(&mut detail, " request failed: ");
    push_str(&mut detail, status);
    let mut m: Vec<(String, JsonValue)> = Vec::new();
    let ghost s0: Seq<(Seq<char>, JsonShape)> = seq![];
    push_shaped(&mut m, "provider", str_value(provider), Ghost(s0), Ghost(shapes[0].1));
    assert(s0.push(shapes[0]) =~= shapes.take(1));
    push_shaped(&mut m, "status", str_value(status), Ghost(shapes.take(1)), Ghost(shapes[1].1));
    assert(shapes.take(1).push(shapes[1]) =~= shapes.take(2));
    push_shaped(&mut m, "detail", JsonValue::Str(detail), Ghost(shapes.take(2)), Ghost(shapes[2].1));
    assert(shapes.take(2).push(shapes[2]) =~= shapes);
    JsonValue::Object(m)
}

/// The payload of a provider that ran out of time.
pub fn deadline_payload(provider: &str) -> (v: JsonValue)
    ensures
        object_shaped(v, deadline_shapes(provider@)),
{
    let ghost shapes = deadline_shapes(provider@);
    let mut m: Vec<(String, JsonValue)> = Vec::new();
    let ghost s0: Seq<(Seq<char>, JsonShape)> = seq![];
    push_shaped(&mut m, "provider", str_value(provider), Ghost(s0), Ghost(shapes[0].1));
    assert(s0.push(shapes[0]) =~= shapes.take(1));
    push_shaped(&mut m, "status", str_value("timeout"), Ghost(shapes.take(1)), Ghost(shapes[1].1));
    assert(shapes.take(1).push(shapes[1]) =~= shapes.take(2));
    push_shaped(&mut m, "detail", str_value("request deadline reached"), Ghost(shapes.take(2)), Ghost(shapes[2].1));
    assert(shapes.take(2).push(shapes[2]) =~= shapes);
    JsonValue::Object(m)
}

/// The payload of a finished provider search.
pub fn provider_searched_payload(provider: &str, sources_count: usize) -> (v: JsonValue)
    ensures
        object_shaped(v, provider_searched_shapes(provider@, sources_count as nat)),
{
    let ghost shapes = provider_searched_shapes(provider@, sources_count as nat);
    let mut m: Vec<(String, JsonValue)> = Vec::new();
    let ghost s0: Seq<(Seq<char>, JsonShape)> = seq![];
    push_shaped(&mut m, "provider", str_value(provider), Ghost(s0), Ghost(shapes[0].1));
    assert(s0.push(shapes[0]) =~= shapes.take(1));
    push_shaped(&mut m, "sources_count", json_count(sources_count), Ghost(shapes.take(1)), Ghost(shapes[1].1));
    assert(shapes.take(1).push(shapes[1]) =~= shapes);
    JsonValue::Object(m)
}

/// The payload of a finished page fetch: the page's length, never its text.
pub fn provider_fetched_payload(provider: &str, content: &str) -> (v: JsonValue)
    ensures
        object_shaped(v, provider_fetched_shapes(provider@, content@)),
{
    let ghost shapes = provider_fetched_shapes(provider@, content@);
    let mut m: Vec<(String, JsonValue)> = Vec::new();
    let ghost s0: Seq<(Seq<char>, JsonShape)> = seq![];
    push_shaped(&mut m, "provider", str_value(provider), Ghost(s0), Ghost(shapes[0].1));
    assert(s0.push(shapes[0]) =~= shapes.take(1));
    push_shaped(&mut m, "content_length", json_count(chars_of(content).len()), Ghost(shapes.take(1)), Ghost(shapes[1].1));
    assert(shapes.take(1).push(shapes[1]) =~= shapes);
    JsonValue::Object(m)
}

// ---------------------------------------------------------------------------
// What diagnostics never record
// ---------------------------------------------------------------------------

/// The query's text is not logged: two searches that differ only in queries of the same
/// length open with the same event.
pub proof fn law_query_text_not_logged(a: SearchPlan, b: SearchPlan, format: Option<ResponseFormat>)
    requires
        a.query@.len() == b.query@.len(),
        a.provider == b.provider,
        a.filters.recency_days == b.filters.recency_days,
        a.filters.include_domains@.len() == b.filters.include_domains@.len(),
        a.filters.exclude_domains@.len() == b.filters.exclude_domains@.len(),
    ensures
        search_started_shapes(a, format) == search_started_shapes(b, format),
{
}

/// A provider failure is logged by its category alone: two failures of one category give
/// the same event, whatever their texts say.
pub proof fn law_failure_text_not_logged(provider: Seq<char>, a: HybridSearchError, b: HybridSearchError)
    requires
        error_status_spec(a) == error_status_spec(b),
    ensures
        provider_failed_shapes(provider, a) == provider_failed_shapes(provider, b),
{
}

/// A fetched page is logged by its length alone: two pages of one length give the same
/// event.
pub proof fn law_page_text_not_logged(provider: Seq<char>, a: Seq<char>, b: Seq<char>)
    requires
        a.len() == b.len(),
    ensures
        provider_fetched_shapes(provider, a) == provider_fetched_shapes(provider, b),
{
}

/// An event that a search logs, with what its payload is built from.
pub ghost enum SearchLogEntry {
    Started,
    ProviderFailed(Seq<char>, HybridSearchError),
    Deadline(Seq<char>),
    ProviderSearched(Seq<char>, nat),
    ProviderFetched(Seq<char>, Seq<char>),
    Completed(WebSearchOutput),
}

/// The payload an entry of a search's log is written with.
pub open spec fn entry_shapes(plan: SearchPlan, format: Option<ResponseFormat>, e: SearchLogEntry) -> Seq<(Seq<char>, JsonShape)> {
    match e {
        SearchLogEntry::Started => search_started_shapes(plan, format),
        SearchLogEntry::ProviderFailed(p, err) => provider_failed_shapes(p, err),
        SearchLogEntry::Deadline(p) => deadline_shapes(p),
        SearchLogEntry::ProviderSearched(p, n) => provider_searched_shapes(p, n),
        SearchLogEntry::ProviderFetched(p, c) => provider_fetched_shapes(p, c),
        SearchLogEntry::Completed(o) => search_completed_shapes(o),
    }
}

/// The payloads of a whole search's log, in order.
pub open spec fn run_log_shapes(plan: SearchPlan, format: Option<ResponseFormat>, log: Seq<SearchLogEntry>) -> Seq<Seq<(Seq<char>, JsonShape)>> {
    log.map_values(|e: SearchLogEntry| entry_shapes(plan, format, e))
}

/// Two log entries that differ at most in what is never logged: a failure's own text
/// (its category being the same) and a fetched page's text (its length being the same).
pub open spec fn entries_alike(a: SearchLogEntry, b: SearchLogEntry) -> bool {
    match (a, b) {
        (SearchLogEntry::ProviderFailed(p, e), SearchLogEntry::ProviderFailed(q, f)) => p == q && error_status_spec(e) == error_status_spec(f),
        (SearchLogEntry::ProviderFetched(p, c), SearchLogEntry::ProviderFetched(q, d)) => p == q && c.len() == d.len(),
        _ => a == b,
    }
}

/// Over a whole search the log never holds the query's text: two searches whose plans
/// differ only in queries of the same length, and whose providers answered alike, log the
/// same events.
pub proof fn law_run_log_ignores_query(
    a: SearchPlan,
    b: SearchPlan,
    format: Option<ResponseFormat>,
    log_a: Seq<SearchLogEntry>,
    log_b: Seq<SearchLogEntry>,
)
    requires
        a.query@.len() == b.query@.len(),
        a.provider == b.provider,
        a.filters.recency_days == b.filters.recency_days,
        a.filters.include_domains@.len() == b.filters.include_domains@.len(),
        a.filters.exclude_domains@.len() == b.filters.exclude_domains@.len(),
        log_a.len() == log_b.len(),
        forall|i: int| 0 <= i < log_a.len() ==> entries_alike(#[trigger] log_a[i], log_b[i]),
    ensures
        run_log_shapes(a, format, log_a) == run_log_shapes(b, format, log_b),
{
    law_query_text_not_logged(a, b, format);
    assert forall|i: int| 0 <= i < log_a.len() implies #[trigger] entry_shapes(a, format, log_a[i]) == entry_shapes(b, format, log_b[i]) by {
        assert(entries_alike(log_a[i], log_b[i]));
    }
    assert(run_log_shapes(a, format, log_a) =~= run_log_shapes(b, format, log_b));
}

} // verus!
