use hybridsearch::config::Config;
use hybridsearch::error::HybridSearchError;
use hybridsearch::events::{
    deadline_payload, provider_failed_payload, provider_fetched_payload, provider_searched_payload,
    search_completed_payload, search_started_payload, service_started_payload,
};
use hybridsearch::flow::SearchPlan;
use hybridsearch::json::JsonValue;
use hybridsearch::model::{ResponseFormat, SearchFilters, SearchProvider, WebSearchOutput};

fn text(v: &JsonValue) -> String {
    match v {
        JsonValue::Null => "null".to_string(),
        JsonValue::Bool(b) => b.to_string(),
        JsonValue::Number(x) => x.text.clone(),
        JsonValue::Str(t) => format!("\"{t}\""),
        JsonValue::Array(items) => format!("[{}]", items.iter().map(text).collect::<Vec<_>>().join(",")),
        JsonValue::Object(members) => format!(
            "{{{}}}",
            members.iter().map(|(k, x)| format!("\"{k}\":{}", text(x))).collect::<Vec<_>>().join(",")
        ),
    }
}

fn plan(query: &str) -> SearchPlan {
    SearchPlan {
        query: query.to_string(),
        provider: Some(SearchProvider::Exa),
        filters: SearchFilters {
            recency_days: Some(7),
            include_domains: vec!["docs.rs".to_string(), "crates.io".to_string()],
            exclude_domains: vec![],
        },
        include_content: false,
        extra_sources: None,
    }
}

#[test]
fn search_started_event_records_the_query_length_only() {
    let v = search_started_payload(&plan("secret plans"), Some(ResponseFormat::Concise));
    assert_eq!(
        text(&v),
        "{\"query_length\":12,\"provider\":\"exa\",\"response_format\":\"concise\",\"recency_days\":7,\"include_domains_count\":2,\"exclude_domains_count\":0}"
    );
    assert!(!text(&v).contains("secret"));
    let other = search_started_payload(&plan("public notes"), Some(ResponseFormat::Concise));
    assert_eq!(text(&v), text(&other));
}

#[test]
fn search_started_event_writes_null_for_absent_choices() {
    let mut p = plan("rust");
    p.provider = None;
    p.filters.recency_days = None;
    let v = search_started_payload(&p, None);
    assert_eq!(
        text(&v),
        "{\"query_length\":4,\"provider\":null,\"response_format\":null,\"recency_days\":null,\"include_domains_count\":2,\"exclude_domains_count\":0}"
    );
}

#[test]
fn provider_failure_event_records_the_category_only() {
    let a = provider_failed_payload("tavily", &HybridSearchError::Provider("HTTP 429 for key tvly-abc".to_string()));
    assert_eq!(text(&a), "{\"provider\":\"tavily\",\"status\":\"rate_limited\",\"detail\":\"tavily request failed: rate_limited\"}");
    let b = provider_failed_payload("tavily", &HybridSearchError::Provider("http 432 plan quota".to_string()));
    assert_eq!(text(&a), text(&b));
    let c = provider_failed_payload("exa", &HybridSearchError::Parse("bad json".to_string()));
    assert_eq!(text(&c), "{\"provider\":\"exa\",\"status\":\"invalid_response\",\"detail\":\"exa request failed: invalid_response\"}");
}

#[test]
fn deadline_and_completion_events() {
    assert_eq!(
        text(&deadline_payload("firecrawl")),
        "{\"provider\":\"firecrawl\",\"status\":\"timeout\",\"detail\":\"request deadline reached\"}"
    );
    assert_eq!(text(&provider_searched_payload("exa", 4)), "{\"provider\":\"exa\",\"sources_count\":4}");
    assert_eq!(text(&provider_fetched_payload("exa", "héllo")), "{\"provider\":\"exa\",\"content_length\":5}");
    assert_eq!(text(&provider_fetched_payload("exa", "page one")), text(&provider_fetched_payload("exa", "page two")));
}

#[test]
fn search_completed_event_records_the_route() {
    let output = WebSearchOutput {
        session_id: "s1".to_string(),
        answer: Some("an answer".to_string()),
        sources_count: 3,
        sources: vec![],
        search_provider: "chatgpt2api".to_string(),
        supplemental_provider: Some("tavily".to_string()),
        fallback_used: false,
        truncated: true,
        recovery_hint: None,
    };
    assert_eq!(
        text(&search_completed_payload(&output)),
        "{\"provider\":\"chatgpt2api\",\"supplemental_provider\":\"tavily\",\"sources_count\":3,\"fallback_used\":false,\"truncated\":true}"
    );
}

#[test]
fn service_started_event_lists_the_orders() {
    let c = Config::from_map(vec![("TAVILY_API_KEY".to_string(), "k1".to_string())]).ok().unwrap();
    assert_eq!(
        text(&service_started_payload(&c)),
        "{\"provider_order\":[\"tavily\"],\"source_provider_order\":[\"tavily\",\"firecrawl\",\"tinyfish\",\"exa\"],\"configured_providers\":[\"tavily\"],\"timeout_seconds\":300}"
    );
}

#[test]
fn a_whole_search_logs_alike_for_queries_of_one_length() {
    let run = |query: &str, failure: &str, page: &str| -> Vec<String> {
        vec![
            text(&search_started_payload(&plan(query), None)),
            text(&provider_failed_payload("tavily", &HybridSearchError::Provider(failure.to_string()))),
            text(&deadline_payload("firecrawl")),
            text(&provider_searched_payload("exa", 2)),
            text(&provider_fetched_payload("exa", page)),
        ]
    };
    let first = run("rust borrow", "HTTP 500 for rust borrow", "page about rust");
    let second = run("hello world", "HTTP 500 for hello world", "page about ruby");
    assert_eq!(first, second);
    assert!(first.iter().all(|event| !event.contains("rust")));
}
