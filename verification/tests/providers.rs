use hybridsearch::config::Config;
use hybridsearch::error::HybridSearchError;
use hybridsearch::json::{JsonNumber, JsonValue};
use hybridsearch::logging::{is_secret_key, redact_json_value};
use hybridsearch::model::{SearchFilters, Source};
use hybridsearch::providers::http::{http_failure, json_failure, HttpFailure, HttpOutcome};
use hybridsearch::providers::tavily::{self, Attempt, KeyRing};
use hybridsearch::providers::{active_providers, chatgpt2api, endpoint, exa, firecrawl, tinyfish, trim_api_url, ProviderKind, SourceProvider};

fn s(x: &str) -> JsonValue {
    JsonValue::Str(x.to_string())
}

fn n(x: i64) -> JsonValue {
    JsonValue::Number(JsonNumber { text: x.to_string(), integer: Some(x) })
}

fn arr(v: Vec<JsonValue>) -> JsonValue {
    JsonValue::Array(v)
}

fn obj(v: Vec<(&str, JsonValue)>) -> JsonValue {
    JsonValue::Object(v.into_iter().map(|(k, x)| (k.to_string(), x)).collect())
}

fn text(v: &JsonValue) -> String {
    match v {
        JsonValue::Null => "null".to_string(),
        JsonValue::Bool(b) => b.to_string(),
        JsonValue::Number(x) => x.text.clone(),
        JsonValue::Str(t) => format!("\"{t}\""),
        JsonValue::Array(items) => format!("[{}]", items.iter().map(text).collect::<Vec<_>>().join(",")),
        JsonValue::Object(members) => format!(
            "{{{}}}",
            members.iter().map(|(k, x)| format!("\"{k}\":{}", text(x))).collect::<Vec<_>>().join(",")
        ),
    }
}

fn strings(items: &[&str]) -> Vec<String> {
    items.iter().map(|s| s.to_string()).collect()
}

fn filters(days: Option<u32>, allowed: &[&str], refused: &[&str]) -> SearchFilters {
    SearchFilters { recency_days: days, include_domains: strings(allowed), exclude_domains: strings(refused) }
}

fn describe(s: &Source) -> (String, Option<String>, Option<String>, Option<String>) {
    (s.url.clone(), s.title.clone(), s.description.clone(), s.published_date.clone())
}

#[test]
fn provider_kinds() {
    assert!(ProviderKind::from_name("exa") == Some(ProviderKind::Exa));
    assert!(ProviderKind::from_name("bing").is_none());
    assert!(ProviderKind::from_name("keenable").is_none());
    assert!(!ProviderKind::Firecrawl.supports_filters());
    assert!(ProviderKind::Tinyfish.supports_filters());
    assert_eq!(ProviderKind::Tavily.name(), "tavily");
    match ProviderKind::Firecrawl.map_unsupported() {
        HybridSearchError::Provider(m) => assert_eq!(m, "firecrawl does not support URL mapping"),
        _ => panic!("expected a provider error"),
    }
    let c = Config::from_map(vec![
        ("EXA_API_KEY".to_string(), "k".to_string()),
        ("HYBRID_SEARCH_SOURCE_PROVIDERS".to_string(), "tavily,exa".to_string()),
    ])
    .ok()
    .unwrap();
    assert!(active_providers(&c) == vec![ProviderKind::Exa]);
}

#[test]
fn endpoints_join() {
    assert_eq!(trim_api_url("https://x.example/v1//"), "https://x.example/v1");
    assert_eq!(endpoint("https://x.example", "//search"), "https://x.example/search");
    assert_eq!(endpoint("https://x.example", "v1/fetch"), "https://x.example/v1/fetch");
}

#[test]
fn http_failures() {
    let timed = http_failure("Tavily", &HttpOutcome::SendFailed { timed_out: true, message: "t".to_string() }).unwrap();
    assert!(timed.status.is_none());
    assert!(matches!(timed.error, HybridSearchError::Timeout(ref m) if m == "Tavily request"));
    let refused = http_failure("Tavily", &HttpOutcome::SendFailed { timed_out: false, message: "conn refused".to_string() }).unwrap();
    assert!(matches!(refused.error, HybridSearchError::Provider(ref m) if m == "Tavily request failed: conn refused"));
    let read = http_failure("Exa", &HttpOutcome::ReadFailed("eof".to_string())).unwrap();
    assert!(matches!(read.error, HybridSearchError::Provider(ref m) if m == "Exa response read failed: eof"));
    let status = http_failure(
        "Exa",
        &HttpOutcome::Response { status: 404, status_text: "404 Not Found".to_string(), body: "nope".to_string() },
    )
    .unwrap();
    assert_eq!(status.status, Some(404));
    assert!(matches!(status.error, HybridSearchError::Provider(ref m) if m == "Exa returned HTTP 404 Not Found: nope"));
    assert!(http_failure("Exa", &HttpOutcome::Response { status: 204, status_text: "204 No Content".to_string(), body: String::new() }).is_none());
    let bad = json_failure("Exa", 200, "EOF while parsing");
    assert_eq!(bad.status, Some(200));
    assert!(matches!(bad.error, HybridSearchError::Parse(ref m) if m == "invalid Exa JSON: EOF while parsing"));
}

#[test]
fn tavily_keys_rotate() {
    let ring = KeyRing::new("a, b,,");
    assert_eq!(ring.keys, strings(&["a", "b"]));
    assert_eq!(ring.key_at(1, 0), "b");
    assert_eq!(ring.key_at(1, 1), "a");
    assert_eq!(KeyRing::new(" ").keys, strings(&[" "]));
    let limited = || HttpFailure { status: Some(429), error: HybridSearchError::Provider("limited".to_string()) };
    assert!(matches!(tavily::after_attempt(Err(limited()), 0, 2), Attempt::NextKey));
    assert!(matches!(tavily::after_attempt(Err(limited()), 1, 2), Attempt::Done(Err(HybridSearchError::Provider(_)))));
    let broken = HttpFailure { status: Some(500), error: HybridSearchError::Provider("broken".to_string()) };
    assert!(matches!(tavily::after_attempt(Err(broken), 0, 3), Attempt::Done(Err(_))));
    assert!(matches!(tavily::after_attempt(Ok(obj(vec![])), 0, 3), Attempt::Done(Ok(_))));
    assert!(matches!(tavily::keys_exhausted(), HybridSearchError::Provider(ref m) if m == "Tavily request failed"));
}

#[test]
fn tavily_bodies() {
    assert_eq!(
        text(&tavily::search_body("q", 5, &filters(Some(3), &["a.com"], &["b.com"]))),
        "{\"query\":\"q\",\"max_results\":5,\"include_answer\":false,\"days\":3,\"topic\":\"news\",\"include_domains\":[\"a.com\"],\"exclude_domains\":[\"b.com\"]}"
    );
    assert_eq!(text(&tavily::search_body("q", 2, &SearchFilters::none())), "{\"query\":\"q\",\"max_results\":2,\"include_answer\":false}");
    assert_eq!(text(&tavily::extract_body("https://a")), "{\"urls\":[\"https://a\"],\"format\":\"markdown\"}");
    assert_eq!(text(&tavily::map_body("https://a", 20)), "{\"url\":\"https://a\",\"max_depth\":1,\"limit\":20}");
}

#[test]
fn tavily_results() {
    let response = obj(vec![(
        "results",
        arr(vec![
            s("https://bare"),
            obj(vec![("url", s("https://a")), ("title", s("A")), ("content", s("C")), ("published_date", s("2024"))]),
            obj(vec![("url", s("https://low")), ("score", n(0))]),
            obj(vec![("title", s("no url"))]),
            obj(vec![("url", s("https://d")), ("content", n(5)), ("description", s("D"))]),
        ]),
    )]);
    let lows = vec![false, false, true, false];
    let sources = tavily::normalize_results(&response, &lows);
    let seen: Vec<_> = sources.iter().map(describe).collect();
    assert_eq!(
        seen,
        vec![
            ("https://bare".to_string(), None, None, None),
            ("https://a".to_string(), Some("A".to_string()), Some("C".to_string()), Some("2024".to_string())),
            ("https://d".to_string(), None, None, None),
        ]
    );
    assert_eq!(sources[0].provider, "tavily");
    assert_eq!(tavily::map_sources(&response, &lows, 2).len(), 2);
}

#[test]
fn tavily_extracts() {
    let blank = obj(vec![("results", arr(vec![obj(vec![("raw_content", s("  ")), ("content", s("x"))])]))]);
    assert!(matches!(tavily::extract_page(&blank), Err(HybridSearchError::Provider(ref m)) if m == "Tavily extract returned empty content"));
    let page = tavily::extract_page(&obj(vec![("results", arr(vec![obj(vec![("content", s("Body")), ("title", s("T"))])]))])).ok().unwrap();
    assert_eq!((page.content.as_str(), page.title.as_deref(), page.published_date), ("Body", Some("T"), None));
}

#[test]
fn exa_requests_and_results() {
    assert_eq!(
        text(&exa::search_body("q", 0, &filters(None, &["a.com"], &[]), Some("2024-01-01T00:00:00.000Z".to_string()))),
        "{\"query\":\"q\",\"numResults\":1,\"includeDomains\":[\"a.com\"],\"startPublishedDate\":\"2024-01-01T00:00:00.000Z\"}"
    );
    assert_eq!(text(&exa::search_body("q", 500, &SearchFilters::none(), None)), "{\"query\":\"q\",\"numResults\":100}");
    match exa::search_request("q", 5, &filters(Some(7), &[], &["x.com"])).ok().unwrap() {
        JsonValue::Object(members) => {
            assert_eq!(members.len(), 4);
            assert_eq!(members[3].0, "startPublishedDate");
            match &members[3].1 {
                JsonValue::Str(d) => assert!(d.len() == 24 && d.ends_with("T00:00:00.000Z")),
                _ => panic!("expected a date"),
            }
        }
        _ => panic!("expected an object"),
    }
    assert!(matches!(
        exa::search_request("q", 5, &filters(Some(u32::MAX), &[], &[])),
        Err(HybridSearchError::InvalidParams(ref m)) if m == "web_search.recency_days is too large"
    ));
    assert_eq!(text(&exa::search_request("q", 5, &SearchFilters::none()).ok().unwrap()), "{\"query\":\"q\",\"numResults\":5}");
    assert_eq!(text(&exa::contents_body("https://a")), "{\"urls\":[\"https://a\"],\"text\":true}");
    let response = obj(vec![("results", arr(vec![obj(vec![("url", s("https://a")), ("summary", s("S")), ("publishedDate", s("2023"))])]))]);
    let seen: Vec<_> = exa::normalize_results(&response).iter().map(describe).collect();
    assert_eq!(seen, vec![("https://a".to_string(), None, Some("S".to_string()), Some("2023".to_string()))]);
    let page = exa::contents_page(&obj(vec![("results", arr(vec![obj(vec![("text", s("T")), ("publishedDate", s("2023"))])]))])).ok().unwrap();
    assert_eq!((page.content.as_str(), page.published_date.as_deref()), ("T", Some("2023")));
    assert!(matches!(exa::contents_page(&obj(vec![])), Err(HybridSearchError::Provider(ref m)) if m == "Exa contents returned no content"));
}

#[test]
fn firecrawl_requests_and_results() {
    assert_eq!(text(&firecrawl::search_body("q", 4)), "{\"query\":\"q\",\"limit\":4}");
    assert_eq!(text(&firecrawl::scrape_body("https://a")), "{\"url\":\"https://a\",\"formats\":[\"markdown\"]}");
    let response = obj(vec![("data", arr(vec![s("https://s"), obj(vec![("url", s("https://a")), ("title", s("A")), ("markdown", s("M"))])]))]);
    let seen: Vec<_> = firecrawl::normalize_results(&response).iter().map(describe).collect();
    assert_eq!(
        seen,
        vec![("https://s".to_string(), None, None, None), ("https://a".to_string(), Some("A".to_string()), Some("M".to_string()), None)]
    );
    let other = obj(vec![("results", arr(vec![obj(vec![("url", s("https://r"))])]))]);
    assert_eq!(firecrawl::normalize_results(&other).len(), 1);
    let page = firecrawl::scrape_page(&obj(vec![(
        "data",
        obj(vec![("markdown", s("MD")), ("metadata", obj(vec![("title", s("T")), ("article:published_time", s("2023"))]))]),
    )]))
    .ok()
    .unwrap();
    assert_eq!((page.content.as_str(), page.title.as_deref(), page.published_date.as_deref()), ("MD", Some("T"), Some("2023")));
    assert_eq!(firecrawl::scrape_page(&obj(vec![("content", s("C"))])).ok().unwrap().content, "C");
    assert!(matches!(firecrawl::scrape_page(&obj(vec![])), Err(HybridSearchError::Provider(ref m)) if m == "Firecrawl scrape returned empty content"));
}

#[test]
fn tinyfish_requests_and_results() {
    let params = tinyfish::search_params("q", &filters(Some(2), &["a.com", "b.com"], &[]));
    assert_eq!(
        params,
        vec![
            ("query".to_string(), "q".to_string()),
            ("include_domains".to_string(), "a.com,b.com".to_string()),
            ("recency_minutes".to_string(), "2880".to_string()),
        ]
    );
    let long = tinyfish::search_params("q", &filters(Some(10000), &[], &["x.com"]));
    assert_eq!(long[1], ("exclude_domains".to_string(), "x.com".to_string()));
    assert_eq!(long[2], ("recency_minutes".to_string(), "5256000".to_string()));
    assert_eq!(text(&tinyfish::fetch_body("https://a")), "{\"urls\":[\"https://a\"],\"format\":\"markdown\"}");
    let response = obj(vec![(
        "results",
        arr(vec![
            obj(vec![("url", s("https://a")), ("snippet", s("S")), ("date", s("d"))]),
            obj(vec![("url", s("https://b"))]),
        ]),
    )]);
    let seen: Vec<_> = tinyfish::normalize_results(&response, 1).iter().map(describe).collect();
    assert_eq!(seen, vec![("https://a".to_string(), None, Some("S".to_string()), Some("d".to_string()))]);
    match tinyfish::fetch_page(&obj(vec![("errors", arr(vec![obj(vec![("error", s("blocked"))])]))])) {
        Err(HybridSearchError::Provider(m)) => assert_eq!(m, "TinyFish fetch failed: blocked"),
        _ => panic!("expected a provider error"),
    }
    match tinyfish::fetch_page(&obj(vec![])) {
        Err(HybridSearchError::Provider(m)) => assert_eq!(m, "TinyFish fetch failed: no content returned"),
        _ => panic!("expected a provider error"),
    }
    let page = tinyfish::fetch_page(&obj(vec![("results", arr(vec![obj(vec![("text", s("T")), ("title", s("Ti"))])]))])).ok().unwrap();
    assert_eq!((page.content.as_str(), page.title.as_deref()), ("T", Some("Ti")));
}

#[test]
fn chatgpt_prompt_and_answer() {
    assert_eq!(chatgpt2api::query_with_filters("q", &SearchFilters::none()), "q");
    assert_eq!(
        chatgpt2api::query_with_filters("q", &filters(Some(3), &["a.com", "b.com"], &["c.com"])),
        "q\n\nSearch constraints:\n- Prefer information published within the last 3 days.\n- Prefer only these domains: a.com, b.com.\n- Exclude these domains: c.com."
    );
    assert_eq!(
        chatgpt2api::clean_search_text(" Hello \u{e200}cite\u{e202}turn0search1\u{e201} world \u{e200}url\u{e202}Rust\u{e202}https://rust-lang.org\u{e201}! "),
        "Hello  world Rust (https://rust-lang.org)!"
    );
    assert_eq!(chatgpt2api::clean_search_text("a \u{e200}entity\u{e202}turn1\u{e202}42\u{e202}Ferris\u{e201} b"), "a Ferris b");
    let response = obj(vec![
        ("answer", s("  ")),
        ("sources", arr(vec![obj(vec![("url", s(" https://a ")), ("title", s("A")), ("snippet", s("S"))]), obj(vec![("url", s("  "))])])),
    ]);
    let result = chatgpt2api::parse_response(&response);
    assert!(result.answer.is_none());
    assert_eq!(result.sources.len(), 1);
    assert_eq!(describe(&result.sources[0]), ("https://a".to_string(), Some("A".to_string()), Some("S".to_string()), None));
    assert_eq!(text(&chatgpt2api::search_body("p")), "{\"prompt\":\"p\"}");
}

#[test]
fn chatgpt_probe_endpoint() {
    assert_eq!(chatgpt2api::probe_endpoint("http://h/v1/search"), "http://h/v1/models");
    assert_eq!(chatgpt2api::probe_endpoint("http://h/search/search"), "http://h/models");
    assert_eq!(chatgpt2api::probe_endpoint("http://h/v1"), "http://h/v1/models");
}

#[test]
fn diagnostic_payload_masks_credentials_at_any_depth() {
    let payload = obj(vec![
        ("query", s("rust")),
        ("Authorization", s("Bearer abc")),
        ("nested", arr(vec![obj(vec![("x_api_key", s("k")), ("X-Api-Key", s("k2")), ("Accept", s("json")), ("count", n(3))]), s("plain")])),
        ("cookie_jar", obj(vec![("a", s("b"))])),
    ]);
    let out = redact_json_value(&payload);
    assert_eq!(
        text(&out),
        "{\"query\":\"rust\",\"Authorization\":\"***\",\"nested\":[{\"x_api_key\":\"***\",\"X-Api-Key\":\"***\",\"Accept\":\"json\",\"count\":3},\"plain\"],\"cookie_jar\":\"***\"}"
    );
    assert!(is_secret_key("GITHUB_TOKEN"));
    assert!(is_secret_key("apiKey"));
    assert!(!is_secret_key("query"));
    assert!(is_secret_key("X-Api-Key"));
    assert!(is_secret_key("x-api-key"));
    assert!(is_secret_key("Set-Cookie"));
    assert!(!is_secret_key("provider"));
}

#[test]
fn redacting_twice_changes_nothing_more() {
    let payload = obj(vec![
        ("password", n(7)),
        ("items", arr(vec![obj(vec![("session_token", arr(vec![]))]), JsonValue::Null])),
        ("title", s("***")),
    ]);
    let once = redact_json_value(&payload);
    let twice = redact_json_value(&once);
    assert_eq!(text(&once), text(&twice));
    assert_eq!(text(&once), "{\"password\":\"***\",\"items\":[{\"session_token\":\"***\"},null],\"title\":\"***\"}");
}

#[test]
fn chat_text_with_an_unterminated_marker_keeps_the_rest() {
    assert_eq!(chatgpt2api::clean_search_text("ab\u{e200}cd"), "abab\u{e200}cd");
    assert_eq!(chatgpt2api::clean_search_text(" x\u{e200}url\u{e202}L\u{e202}https://u\u{e201}y "), "xL (https://u)y");
}
