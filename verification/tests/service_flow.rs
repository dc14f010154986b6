use std::sync::Arc;

use hybridsearch::budget::{apply_response_budget, source_weight};
use hybridsearch::cache::SourceCache;
use hybridsearch::config::Config;
use hybridsearch::doctor::{doctor_output, doctor_provider_names, provider_health};
use hybridsearch::error::HybridSearchError;
use hybridsearch::flow::{
    after_primary, after_specialist, chain_skip, chain_source_count, chain_step, check_selected_source,
    combine_route, enrich_count, enrich_with, requested_extra_sources, selected_source_count, fetch_chain_failed, fetch_step, finish_fetch, finish_search, plan_fetch,
    plan_map, plan_search, selected_chat, selected_source, ChainResult, ChainStep, ChatOutcome, FetchOutcome,
    FetchStep, PrimaryState, RouteResult, SourceOutcome, SpecialistDecision, SpecialistOutcome,
};
use hybridsearch::model::{FetchedPage, ResponseFormat, SearchFilters, SearchProvider, Source, WebSearchInput};
use hybridsearch::providers::chatgpt2api::ChatSearchResult;
use hybridsearch::service::{
    error_status, get_sources, normalize_domains, probe_result, provider_endpoints, provider_key_name,
    redact_endpoint, truncate_text, ProbeOutcome,
};

fn env(pairs: &[(&str, &str)]) -> Vec<(String, String)> {
    pairs.iter().map(|(k, v)| (k.to_string(), v.to_string())).collect()
}

fn config(pairs: &[(&str, &str)]) -> Config {
    Config::from_map(env(pairs)).ok().unwrap()
}

fn source(url: &str) -> Source {
    Source::new(url.to_string(), "p".to_string())
}

fn with_content(url: &str, content: &str) -> Source {
    let mut s = source(url);
    s.content = Some(content.to_string());
    s
}

fn strings(items: &[&str]) -> Vec<String> {
    items.iter().map(|s| s.to_string()).collect()
}

fn search_input(query: &str) -> WebSearchInput {
    WebSearchInput {
        query: query.to_string(),
        provider: None,
        extra_sources: None,
        include_content: None,
        response_format: None,
        recency_days: None,
        include_domains: vec![],
        exclude_domains: vec![],
    }
}

#[test]
fn weight_is_the_json_length() {
    assert_eq!(source_weight(&source("https://a")), 34);
    assert_eq!(source_weight(&with_content("https://a", "say \"hi\"")), 34 + 23);
    assert_eq!(source_weight(&with_content("https://a", "\u{1}\n")), 34 + 11 + 10);
    assert_eq!(source_weight(&with_content("https://a", "é—")), 34 + 11 + 4);
}

#[test]
fn budget_within_limit_changes_nothing() {
    let mut sources = vec![with_content("https://a", "abc")];
    assert!(!apply_response_budget(Some("answer"), &mut sources, 1000, "sid", 0));
    assert_eq!(sources[0].content.as_deref(), Some("abc"));
}

#[test]
fn budget_cuts_the_last_content() {
    let mut sources = vec![with_content("https://a", &"x".repeat(400)), with_content("https://b", &"y".repeat(400))];
    assert!(apply_response_budget(None, &mut sources, 700, "sid", 0));
    assert_eq!(sources.len(), 2);
    assert_eq!(sources[0].content.as_deref(), Some("x".repeat(400).as_str()));
    let second = sources[1].content.clone().unwrap();
    assert_eq!(second.chars().count(), 206);
    assert!(second.starts_with("yyyyy"));
    assert!(second.ends_with("\n\n_[truncated: response budget reached — full text via web_fetch(\"https://b\") or get_sources(session_id=\"sid\", offset=1, limit=1)]_"));
}

#[test]
fn budget_replaces_and_drops() {
    let mut sources = vec![with_content("https://a", &"x".repeat(400)), with_content("https://b", &"y".repeat(400))];
    assert!(apply_response_budget(None, &mut sources, 100, "sid", 3));
    assert_eq!(sources.len(), 1);
    assert_eq!(sources[0].url, "https://a");
    assert_eq!(
        sources[0].content.as_deref(),
        Some("_[inline content omitted: response budget reached — full text via web_fetch(\"https://a\") or get_sources(session_id=\"sid\", offset=3, limit=1)]_")
    );
}

#[test]
fn error_status_categories() {
    assert_eq!(error_status(&HybridSearchError::Provider("Tavily returned HTTP 401 Unauthorized: no".to_string())), "authentication");
    assert_eq!(error_status(&HybridSearchError::Provider("Exa returned HTTP 432 x".to_string())), "rate_limited");
    assert_eq!(error_status(&HybridSearchError::Provider("Tavily request failed: boom".to_string())), "network");
    assert_eq!(error_status(&HybridSearchError::Provider("DNS error".to_string())), "network");
    assert_eq!(error_status(&HybridSearchError::Provider("weird".to_string())), "provider_error");
    assert_eq!(error_status(&HybridSearchError::MissingConfig("x".to_string())), "not_configured");
    assert_eq!(error_status(&HybridSearchError::InvalidParams("x".to_string())), "invalid_request");
    assert_eq!(error_status(&HybridSearchError::Parse("x".to_string())), "invalid_response");
    assert_eq!(error_status(&HybridSearchError::Timeout("x".to_string())), "timeout");
    assert_eq!(error_status(&HybridSearchError::NotFound("x".to_string())), "not_found");
}

#[test]
fn probe_reports() {
    let ok = probe_result("exa", ProbeOutcome::Reachable);
    assert!(ok.reachable);
    assert_eq!((ok.status.as_str(), ok.detail.as_str()), ("ok", "reachable"));
    let failed = probe_result("exa", ProbeOutcome::Failed(HybridSearchError::Timeout("Exa request".to_string())));
    assert!(!failed.reachable);
    assert_eq!((failed.status.as_str(), failed.detail.as_str()), ("timeout", "request timed out: Exa request"));
    let late = probe_result("tavily", ProbeOutcome::TimedOut);
    assert_eq!((late.provider.as_str(), late.status.as_str(), late.detail.as_str()), ("tavily", "timeout", "probe timed out"));
}

#[test]
fn key_names() {
    assert_eq!(provider_key_name("chatgpt2api"), "CHATGPT2API_API_URL + CHATGPT2API_API_KEY");
    assert_eq!(provider_key_name("keenable"), "provider credentials");
    assert_eq!(provider_key_name("other"), "provider credentials");
}

#[test]
fn endpoints_are_stripped_and_redacted() {
    let c = config(&[("TAVILY_API_KEY", "k1")]);
    assert_eq!(redact_endpoint(&c, "https://user:pw@host.example/path?key=k1#frag"), "https://host.example/path");
    assert_eq!(redact_endpoint(&c, "not a url k1"), "not a url ***");
    assert_eq!(
        provider_endpoints(&c, "tinyfish"),
        strings(&["https://api.search.tinyfish.ai/", "https://api.fetch.tinyfish.ai/"])
    );
    assert!(provider_endpoints(&c, "chatgpt2api").is_empty());
}

#[test]
fn domains_are_normalized() {
    assert_eq!(normalize_domains(strings(&[" Example.COM ", "example.com", "  ", "b.org"])), strings(&["example.com", "b.org"]));
}

#[test]
fn text_is_cut_by_characters() {
    assert_eq!(truncate_text("héllo".to_string(), Some(2)), ("hé".to_string(), true));
    assert_eq!(truncate_text("héllo".to_string(), Some(5)), ("héllo".to_string(), false));
    assert_eq!(truncate_text("héllo".to_string(), None), ("héllo".to_string(), false));
}

#[test]
fn cached_sessions_are_paged() {
    let mut cache = SourceCache::new(4);
    cache.insert("s".to_string(), Arc::new(vec![source("https://a"), source("https://b"), source("https://c")]));
    let page = get_sources(&mut cache, "s", 1, Some(1), 45000).ok().unwrap();
    assert_eq!(page.offset, 1);
    assert_eq!(page.sources_count, 1);
    assert_eq!(page.sources[0].url, "https://b");
    assert_eq!(page.total_sources, 3);
    assert_eq!(page.next_offset, Some(2));
    assert!(!page.truncated && page.recovery_hint.is_none());
    let rest = get_sources(&mut cache, "s", 9, None, 45000).ok().unwrap();
    assert_eq!((rest.offset, rest.sources_count, rest.next_offset), (3, 0, None));
    match get_sources(&mut cache, "zz", 0, None, 45000) {
        Err(HybridSearchError::NotFound(m)) => assert_eq!(m, "session_id=zz"),
        _ => panic!("expected not found"),
    }
}

#[test]
fn trimmed_page_hints_at_the_next() {
    let mut cache = SourceCache::new(4);
    cache.insert("s".to_string(), Arc::new(vec![with_content("https://a", &"x".repeat(400)), with_content("https://b", &"y".repeat(400))]));
    let page = get_sources(&mut cache, "s", 0, None, 100).ok().unwrap();
    assert!(page.truncated);
    assert_eq!(page.next_offset, Some(1));
    assert_eq!(
        page.recovery_hint.as_deref(),
        Some("This page was trimmed to fit the configured budget. Use web_fetch(url) for full page content and continue with get_sources(session_id=\"s\", offset=1).")
    );
}

#[test]
fn search_requests_are_checked() {
    match plan_search(search_input("   ")) {
        Err(HybridSearchError::InvalidParams(m)) => assert_eq!(m, "web_search.query must not be empty"),
        _ => panic!("expected a refusal"),
    }
    let mut zero = search_input("q");
    zero.recency_days = Some(0);
    match plan_search(zero) {
        Err(HybridSearchError::InvalidParams(m)) => assert_eq!(m, "web_search.recency_days must be greater than zero"),
        _ => panic!("expected a refusal"),
    }
    let mut input = search_input("  rust  ");
    input.include_domains = strings(&["A.com", "a.com"]);
    input.include_content = Some(false);
    input.response_format = Some(ResponseFormat::Detailed);
    input.provider = Some(SearchProvider::Exa);
    let plan = plan_search(input).ok().unwrap();
    assert_eq!(plan.query, "rust");
    assert_eq!(plan.filters.include_domains, strings(&["a.com"]));
    assert!(plan.include_content);
    assert!(plan.provider == Some(SearchProvider::Exa));
}

#[test]
fn selected_chat_outcomes() {
    match selected_chat(None) {
        Err(HybridSearchError::MissingConfig(m)) => assert_eq!(m, "CHATGPT2API_API_URL + CHATGPT2API_API_KEY"),
        _ => panic!("expected missing configuration"),
    }
    let empty = ChatSearchResult { answer: Some("a".to_string()), sources: vec![] };
    match selected_chat(Some(ChatOutcome::Answered(empty))) {
        Err(HybridSearchError::Provider(m)) => assert_eq!(m, "chatgpt2api returned no sources"),
        _ => panic!("expected a provider error"),
    }
    let found = ChatSearchResult { answer: Some("a".to_string()), sources: vec![source("https://a"), source("https://a")] };
    let r = selected_chat(Some(ChatOutcome::Answered(found))).ok().unwrap();
    assert_eq!(r.sources.len(), 1);
    assert_eq!(r.search_provider, "chatgpt2api");
    match selected_chat(Some(ChatOutcome::TimedOut)) {
        Err(HybridSearchError::Timeout(m)) => assert_eq!(m, "ChatGPT2API search request"),
        _ => panic!("expected a timeout"),
    }
}

#[test]
fn selected_source_outcomes() {
    let c = config(&[("EXA_API_KEY", "k"), ("HYBRID_SEARCH_SOURCE_PROVIDERS", "exa")]);
    let filters = SearchFilters { recency_days: Some(3), include_domains: vec![], exclude_domains: vec![] };
    match check_selected_source(&c, "tavily", false, true, &filters) {
        Err(HybridSearchError::InvalidParams(m)) => assert_eq!(m, "provider 'tavily' is disabled by HYBRID_SEARCH_SOURCE_PROVIDERS"),
        _ => panic!("expected a refusal"),
    }
    match check_selected_source(&c, "exa", false, true, &filters) {
        Err(HybridSearchError::MissingConfig(m)) => assert_eq!(m, "EXA_API_KEY"),
        _ => panic!("expected missing configuration"),
    }
    match check_selected_source(&c, "exa", true, false, &filters) {
        Err(HybridSearchError::InvalidParams(m)) => assert_eq!(m, "provider 'exa' cannot enforce domain or recency filters"),
        _ => panic!("expected a refusal"),
    }
    assert!(check_selected_source(&c, "exa", true, true, &filters).is_ok());
    let r = selected_source("exa", SourceOutcome::Found(vec![source("https://a"), source(" https://a"), source("https://b")]), 1).ok().unwrap();
    assert_eq!(r.sources.len(), 1);
    assert_eq!(r.search_provider, "exa");
    match selected_source("exa", SourceOutcome::Found(vec![source(" ")]), 3) {
        Err(HybridSearchError::Provider(m)) => assert_eq!(m, "exa returned no sources"),
        _ => panic!("expected a provider error"),
    }
    match selected_source("exa", SourceOutcome::TimedOut, 3) {
        Err(HybridSearchError::Timeout(m)) => assert_eq!(m, "exa search request"),
        _ => panic!("expected a timeout"),
    }
}

#[test]
fn automatic_route_steps() {
    let primary = after_primary(Some(ChatOutcome::Failed(HybridSearchError::Provider("ChatGPT2API returned HTTP 500 x".to_string()))));
    assert!(!primary.usable);
    assert_eq!(primary.notes, strings(&["chatgpt2api: provider error: ChatGPT2API returned HTTP 500 x"]));
    assert_eq!(chain_source_count(false, 3, 5), 5);
    assert_eq!(chain_source_count(true, 3, 5), 3);
    let mut notes: Vec<String> = Vec::new();
    let filters = SearchFilters { recency_days: None, include_domains: strings(&["a.com"]), exclude_domains: vec![] };
    assert!(chain_skip(&mut notes, "firecrawl", false, &filters));
    assert_eq!(notes, strings(&["firecrawl skipped because it cannot enforce domain or recency filters"]));
    assert!(!chain_skip(&mut notes, "tavily", true, &filters));
    assert!(matches!(chain_step(&mut notes, "tavily", SourceOutcome::Found(vec![]), 5), ChainStep::Next));
    assert!(matches!(chain_step(&mut notes, "exa", SourceOutcome::TimedOut, 5), ChainStep::Stop));
    assert_eq!(notes[1], "tavily returned no sources");
    assert_eq!(notes[2], "exa: request deadline reached");
    match chain_step(&mut notes, "tinyfish", SourceOutcome::Found(vec![source("https://a"), source("https://b")]), 1) {
        ChainStep::Done(s) => assert_eq!(s.len(), 1),
        _ => panic!("expected sources"),
    }
}

#[test]
fn combined_route_failure_and_success() {
    let c = config(&[("TAVILY_API_KEY", "sekret")]);
    let failed = combine_route(
        &c,
        false,
        PrimaryState { answer: None, sources: vec![], usable: false, notes: vec![] },
        ChainResult { sources: vec![], provider: None, notes: strings(&["tavily: leaked sekret"]) },
    );
    match failed {
        Err(HybridSearchError::Provider(m)) => assert_eq!(m, "all configured search providers failed: tavily: leaked ***"),
        _ => panic!("expected a failure"),
    }
    let ok = combine_route(
        &c,
        true,
        PrimaryState { answer: Some("a".to_string()), sources: vec![source("https://a")], usable: true, notes: vec![] },
        ChainResult { sources: vec![source("https://a"), source("https://b")], provider: Some("tavily".to_string()), notes: vec![] },
    )
    .ok()
    .unwrap();
    assert_eq!(ok.search_provider, "chatgpt2api");
    assert_eq!(ok.supplemental_provider.as_deref(), Some("tavily"));
    assert!(!ok.fallback_used);
    assert_eq!(ok.sources.len(), 2);
    let fallback = combine_route(
        &c,
        true,
        PrimaryState { answer: None, sources: vec![], usable: false, notes: vec![] },
        ChainResult { sources: vec![source("https://b")], provider: Some("tavily".to_string()), notes: vec![] },
    )
    .ok()
    .unwrap();
    assert_eq!(fallback.search_provider, "tavily");
    assert!(fallback.supplemental_provider.is_none());
    assert!(fallback.fallback_used);
}

#[test]
fn finished_search_is_cached_in_full() {
    let mut cache = SourceCache::new(8);
    let route = RouteResult {
        answer: None,
        sources: vec![with_content("https://a", &"x".repeat(400)), with_content("https://b", &"y".repeat(400))],
        search_provider: "tavily".to_string(),
        supplemental_provider: None,
        fallback_used: false,
    };
    let out = finish_search(&mut cache, "sid-1".to_string(), route, 100);
    assert_eq!(out.sources_count, 2);
    assert_eq!(out.sources.len(), 1);
    assert!(out.truncated);
    assert_eq!(
        out.recovery_hint.as_deref(),
        Some("The response was trimmed to fit the configured budget. Use get_sources(session_id=\"sid-1\") for the cached source list or web_fetch(url) for full page content.")
    );
    let cached = cache.get("sid-1").unwrap();
    assert_eq!(cached.len(), 2);
    assert_eq!(cached[1].content.as_deref(), Some("y".repeat(400).as_str()));
}

#[test]
fn enrichment_fills_content() {
    let out = enrich_with(vec![source("https://a"), source("https://b")], vec![Some("abcdef".to_string()), None], 2, 4);
    assert_eq!(out[0].content.as_deref(), Some("abcd"));
    assert_eq!(out[1].content, None);
    let limited = enrich_with(vec![source("https://a"), source("https://b")], vec![Some("x".to_string()), Some("y".to_string())], 1, 4);
    assert_eq!(limited[0].content.as_deref(), Some("x"));
    assert_eq!(limited[1].content, None);
}

#[test]
fn request_counts_follow_the_plan_and_configuration() {
    let c = Config::from_map(vec![
        ("TAVILY_API_KEY".to_string(), "k".to_string()),
        ("HYBRID_SEARCH_MAX_INLINE_SOURCES".to_string(), "2".to_string()),
    ])
    .ok()
    .unwrap();
    let input = |extra: Option<usize>, format: Option<ResponseFormat>| WebSearchInput {
        query: "q".to_string(),
        provider: None,
        response_format: format,
        include_content: None,
        recency_days: None,
        include_domains: vec![],
        exclude_domains: vec![],
        extra_sources: extra,
    };
    let plain = plan_search(input(None, None)).ok().unwrap();
    assert_eq!(selected_source_count(&plain, &c), 5);
    assert_eq!(requested_extra_sources(&plain, &c), 3);
    assert_eq!(enrich_count(&plain, &c, 7), 2);
    assert_eq!(enrich_count(&plain, &c, 1), 1);
    let asked = plan_search(input(Some(8), Some(ResponseFormat::Concise))).ok().unwrap();
    assert_eq!(selected_source_count(&asked, &c), 8);
    assert_eq!(requested_extra_sources(&asked, &c), 8);
    assert_eq!(enrich_count(&asked, &c, 7), 0);
}

#[test]
fn fetch_urls_are_checked() {
    match plan_fetch("ftp://example.com/x") {
        Err(HybridSearchError::InvalidParams(m)) => assert_eq!(m, "web_fetch.url must use http or https"),
        _ => panic!("expected a refusal"),
    }
    match plan_fetch("not a url") {
        Err(HybridSearchError::InvalidParams(m)) => assert_eq!(m, "invalid URL: relative URL without a base"),
        _ => panic!("expected a refusal"),
    }
    let u = plan_fetch("HTTPS://Example.com/a b").ok().unwrap();
    assert_eq!(u.scheme, "https");
    assert_eq!(u.host.as_deref(), Some("example.com"));
    assert_eq!(u.path, "/a%20b");
    assert_eq!(u.serialized, "https://example.com/a%20b");
}

#[test]
fn fetch_chain_steps() {
    assert!(matches!(after_specialist(SpecialistOutcome::NotApplicable), SpecialistDecision::Generic(None)));
    match after_specialist(SpecialistOutcome::Failed(HybridSearchError::Parse("bad".to_string()))) {
        SpecialistDecision::Generic(Some(m)) => assert_eq!(m, "response parse error: bad"),
        _ => panic!("expected a fallback"),
    }
    match after_specialist(SpecialistOutcome::Page("text".to_string(), "arxiv".to_string())) {
        SpecialistDecision::Use(p, k) => assert_eq!((p.content.as_str(), k.as_str()), ("text", "arxiv")),
        _ => panic!("expected the page"),
    }
    let mut notes: Vec<String> = Vec::new();
    let empty = FetchedPage { content: "  ".to_string(), title: None, published_date: None };
    assert!(matches!(fetch_step(&mut notes, "tavily", FetchOutcome::Fetched(empty)), FetchStep::Next));
    assert!(matches!(fetch_step(&mut notes, "exa", FetchOutcome::Failed(HybridSearchError::Provider("x".to_string()))), FetchStep::Next));
    match fetch_chain_failed(&notes) {
        HybridSearchError::Provider(m) => assert_eq!(m, "all configured fetch providers failed: tavily returned empty content; exa: provider error: x"),
        _ => panic!("expected a provider error"),
    }
}

#[test]
fn fetched_page_is_cut() {
    let page = FetchedPage { content: "abcdef".to_string(), title: Some("T".to_string()), published_date: None };
    let out = finish_fetch("https://a/".to_string(), page, "generic".to_string(), Some("why".to_string()), None, Some(3));
    assert_eq!(out.content, "abc");
    assert!(out.truncated);
    assert_eq!(out.original_length, 6);
    assert_eq!(out.recovery_hint.as_deref(), Some("Call web_fetch again with a larger max_chars value, or omit max_chars when no HYBRID_SEARCH_FETCH_MAX_CHARS default is configured."));
    assert_eq!(out.fallback_reason.as_deref(), Some("why"));
}

#[test]
fn map_requests_are_checked() {
    let c = config(&[("EXA_API_KEY", "k"), ("HYBRID_SEARCH_SOURCE_PROVIDERS", "exa")]);
    match plan_map(&c, true, 5) {
        Err(HybridSearchError::InvalidParams(m)) => assert_eq!(m, "Tavily is disabled by HYBRID_SEARCH_SOURCE_PROVIDERS"),
        _ => panic!("expected a refusal"),
    }
    let d = config(&[("EXA_API_KEY", "k")]);
    match plan_map(&d, false, 5) {
        Err(HybridSearchError::MissingConfig(m)) => assert_eq!(m, "TAVILY_API_KEY"),
        _ => panic!("expected missing configuration"),
    }
    assert_eq!(plan_map(&d, true, 0).ok(), Some(1));
}

#[test]
fn doctor_rows_and_report() {
    let c = config(&[("TAVILY_API_KEY", "k1"), ("GITHUB_TOKEN", "g")]);
    assert_eq!(doctor_provider_names(), vec!["chatgpt2api", "tavily", "firecrawl", "tinyfish", "exa"]);
    let probes = vec![probe_result("tavily", ProbeOutcome::Failed(HybridSearchError::Provider("Tavily returned HTTP 401 Unauthorized: key k1".to_string())))];
    let tavily = provider_health(&c, "tavily", &probes);
    assert!(tavily.enabled && tavily.configured && !tavily.reachable);
    assert_eq!(tavily.status, "authentication");
    assert_eq!(tavily.detail, "provider error: Tavily returned HTTP 401 Unauthorized: key ***");
    assert_eq!(tavily.credential, "set");
    assert_eq!(tavily.endpoints, strings(&["https://api.tavily.com/"]));
    let firecrawl = provider_health(&c, "firecrawl", &probes);
    assert_eq!((firecrawl.status.as_str(), firecrawl.detail.as_str()), ("not_configured", "FIRECRAWL_API_KEY is not configured"));
    assert_eq!(firecrawl.credential, "unset");
    let report = doctor_output(&c, vec![tavily, firecrawl], None);
    assert_eq!(report.status, "degraded");
    assert_eq!(report.configuration_source, "environment + built-in defaults");
    assert_eq!(report.provider_order, strings(&["tavily"]));
    assert!(report.github_token_configured);
    assert_eq!(report.timeout_seconds, 300);
}

#[test]
fn search_then_read_back_everything() {
    let mut cache = SourceCache::new(8);
    let route = RouteResult {
        answer: Some("answer".to_string()),
        sources: vec![with_content("https://a", "alpha"), source("https://b")],
        search_provider: "exa".to_string(),
        supplemental_provider: None,
        fallback_used: false,
    };
    let out = finish_search(&mut cache, "sid-2".to_string(), route, 45000);
    assert!(!out.truncated && out.recovery_hint.is_none());
    let page = get_sources(&mut cache, "sid-2", 0, None, 45000).ok().unwrap();
    assert_eq!(page.total_sources, 2);
    assert_eq!(page.next_offset, None);
    let urls: Vec<&str> = page.sources.iter().map(|s| s.url.as_str()).collect();
    assert_eq!(urls, vec!["https://a", "https://b"]);
    assert_eq!(page.sources[0].content.as_deref(), Some("alpha"));
}

#[test]
fn normalized_domains_normalize_to_themselves() {
    let once = normalize_domains(strings(&["  Docs.RS", "docs.rs ", "\tCRATES.io\n", "", "crates.IO"]));
    assert_eq!(once, strings(&["docs.rs", "crates.io"]));
    assert_eq!(normalize_domains(once.clone()), once);
}

#[test]
fn enrichment_takes_any_parsed_url() {
    let u = hybridsearch::flow::enrich_url("ftp://files.example/a?b=1").unwrap();
    assert_eq!(u.scheme, "ftp");
    assert_eq!(u.host.as_deref(), Some("files.example"));
    assert_eq!(u.path, "/a");
    assert!(hybridsearch::flow::enrich_url("not a url").is_none());
}

#[test]
fn paging_returns_every_source_once_in_order() {
    let mut cache = SourceCache::new(4);
    let urls = ["https://a", "https://b", "https://c", "https://d", "https://e"];
    let sources: Vec<Source> = urls.iter().map(|u| with_content(u, &"x".repeat(400))).collect();
    cache.insert("s".to_string(), Arc::new(sources));
    let mut seen = Vec::new();
    let mut offset = Some(0);
    let mut calls = 0;
    while let Some(o) = offset {
        let page = get_sources(&mut cache, "s", o, Some(2), 700).ok().unwrap();
        assert!(page.sources_count >= 1);
        seen.extend(page.sources.iter().map(|s| s.url.clone()));
        offset = page.next_offset;
        calls += 1;
        assert!(calls <= urls.len());
    }
    assert_eq!(seen, urls.iter().map(|u| u.to_string()).collect::<Vec<_>>());
}
