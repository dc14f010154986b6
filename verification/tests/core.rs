use std::sync::Arc;

use hybridsearch::cache::SourceCache;
use hybridsearch::config::{key_list, normalize_chat_endpoint, Config};
use hybridsearch::error::HybridSearchError;
use hybridsearch::help::{help, parse_args, parse_topic, render_cli, CliCommand, HelpTopic};
use hybridsearch::model::{merge_sources, ResponseFormat, SearchFilters, SearchProvider, Source};

fn env(pairs: &[(&str, &str)]) -> Vec<(String, String)> {
    pairs.iter().map(|(k, v)| (k.to_string(), v.to_string())).collect()
}

fn source(url: &str) -> Source {
    Source::new(url.to_string(), "test".to_string())
}

fn strings(items: &[&str]) -> Vec<String> {
    items.iter().map(|s| s.to_string()).collect()
}

#[test]
fn config_defaults_with_one_key() {
    let c = Config::from_map(env(&[("TAVILY_API_KEY", " tvly-1 ")])).ok().unwrap();
    assert_eq!(c.tavily_api_key.as_deref(), Some("tvly-1"));
    assert_eq!(c.tavily_api_url, "https://api.tavily.com");
    assert_eq!(c.firecrawl_api_url, "https://api.firecrawl.dev/v1");
    assert_eq!(c.tinyfish_search_api_url, "https://api.search.tinyfish.ai");
    assert_eq!(c.tinyfish_fetch_api_url, "https://api.fetch.tinyfish.ai");
    assert_eq!(c.exa_api_url, "https://api.exa.ai");
    assert_eq!(c.timeout_seconds, 300);
    assert_eq!(c.default_extra_sources, 3);
    assert_eq!(c.fallback_sources, 5);
    assert_eq!(c.cache_size, 256);
    assert_eq!(c.fetch_max_chars, None);
    assert_eq!(c.response_max_chars, 45000);
    assert_eq!(c.enrich_concurrency, 3);
    assert_eq!(c.enrich_max_chars, 15000);
    assert_eq!(c.max_inline_sources, 5);
    assert_eq!(c.github_max_comments, 30);
    assert_eq!(c.source_max_answers, 5);
    assert_eq!(c.source_providers, strings(&["tavily", "firecrawl", "tinyfish", "exa"]));
    assert!(!c.source_providers_explicit);
    assert_eq!(c.chatgpt2api_api_url, None);
    assert_eq!(c.debug_log_path, None);
}

#[test]
fn config_without_provider_is_refused() {
    match Config::from_map(env(&[("GITHUB_TOKEN", "ghp"), ("CHATGPT2API_API_URL", "http://x")])) {
        Err(HybridSearchError::MissingConfig(m)) => assert_eq!(
            m,
            "configure CHATGPT2API_API_URL + CHATGPT2API_API_KEY, TAVILY_API_KEY, FIRECRAWL_API_KEY, TINYFISH_API_KEY, or EXA_API_KEY"
        ),
        _ => panic!("expected a missing configuration"),
    }
}

#[test]
fn config_unknown_provider_is_refused() {
    match Config::from_map(env(&[("EXA_API_KEY", "k"), ("HYBRID_SEARCH_SOURCE_PROVIDERS", "exa, bing ,tavily")])) {
        Err(HybridSearchError::InvalidParams(m)) => {
            assert_eq!(m, "unknown provider in HYBRID_SEARCH_SOURCE_PROVIDERS: bing")
        }
        _ => panic!("expected invalid parameters"),
    }
}

#[test]
fn config_reads_numbers_and_order() {
    let c = Config::from_map(env(&[
        ("EXA_API_KEY", "k"),
        ("HYBRID_SEARCH_SOURCE_PROVIDERS", " exa ,, tavily "),
        ("HYBRID_SEARCH_TIMEOUT_SECONDS", "0"),
        ("HYBRID_SEARCH_CACHE_SIZE", "0"),
        ("HYBRID_SEARCH_FETCH_MAX_CHARS", "1200"),
        ("HYBRID_SEARCH_ENRICH_CONCURRENCY", "20"),
        ("HYBRID_SEARCH_EXTRA_SOURCES", "nope"),
        ("TAVILY_API_URL", "https://proxy.example/tavily//"),
    ]))
    .ok()
    .unwrap();
    assert_eq!(c.source_providers, strings(&["exa", "tavily"]));
    assert!(c.source_providers_explicit);
    assert_eq!(c.timeout_seconds, 300);
    assert_eq!(c.cache_size, 1);
    assert_eq!(c.fetch_max_chars, Some(1200));
    assert_eq!(c.enrich_concurrency, 8);
    assert_eq!(c.default_extra_sources, 3);
    assert_eq!(c.tavily_api_url, "https://proxy.example/tavily");
}

#[test]
fn config_later_value_wins() {
    let c = Config::from_map(env(&[("EXA_API_KEY", "first"), ("EXA_API_KEY", "second")])).ok().unwrap();
    assert_eq!(c.exa_api_key.as_deref(), Some("second"));
}

#[test]
fn chat_endpoint_is_completed() {
    assert_eq!(normalize_chat_endpoint("http://127.0.0.1:8000".to_string()), "http://127.0.0.1:8000/v1/search");
    assert_eq!(normalize_chat_endpoint("http://h/v1/".to_string()), "http://h/v1/search");
    assert_eq!(normalize_chat_endpoint("http://h/v1/search//".to_string()), "http://h/v1/search");
}

#[test]
fn chat_needs_both_variables() {
    let c = Config::from_map(env(&[
        ("CHATGPT2API_API_URL", "http://h/v1"),
        ("CHATGPT2API_API_KEY", "secret-key"),
    ]))
    .ok()
    .unwrap();
    assert_eq!(c.chatgpt2api_api_url.as_deref(), Some("http://h/v1/search"));
    assert_eq!(c.effective_provider_order(), strings(&["chatgpt2api"]));
    assert_eq!(c.configured_providers(), vec!["chatgpt2api"]);
}

#[test]
fn provider_order_lists_configured_sources() {
    let c = Config::from_map(env(&[
        ("CHATGPT2API_API_URL", "http://h"),
        ("CHATGPT2API_API_KEY", "k"),
        ("EXA_API_KEY", "e"),
        ("TAVILY_API_KEY", "t"),
        ("HYBRID_SEARCH_SOURCE_PROVIDERS", "exa,firecrawl,tavily"),
    ]))
    .ok()
    .unwrap();
    assert_eq!(c.effective_provider_order(), strings(&["chatgpt2api", "exa", "tavily"]));
    assert_eq!(c.configured_providers(), vec!["chatgpt2api", "tavily", "exa"]);
    assert!(c.source_provider_enabled("firecrawl"));
    assert!(!c.source_provider_enabled("tinyfish"));
    assert!(c.provider_configured("tavily"));
    assert!(!c.provider_configured("firecrawl"));
}

#[test]
fn key_list_splits_and_trims() {
    assert_eq!(key_list(" a , ,b,"), strings(&["a", "b"]));
    assert_eq!(key_list(" , "), strings(&[" , "]));
}

#[test]
fn redaction_masks_every_key() {
    let c = Config::from_map(env(&[("TAVILY_API_KEY", "k1,k2"), ("GITHUB_TOKEN", "ghp_x")])).ok().unwrap();
    assert_eq!(c.redact_text("used k1 then k2 with ghp_x"), "used *** then *** with ***");
}

#[test]
fn cache_returns_what_was_inserted() {
    let mut cache = SourceCache::new(2);
    cache.insert("a".to_string(), Arc::new(vec![source("https://a")]));
    let got = cache.get("a").unwrap();
    assert_eq!(got[0].url, "https://a");
    assert!(cache.get("missing").is_none());
}

#[test]
fn cache_evicts_least_recently_used() {
    let mut cache = SourceCache::new(2);
    cache.insert("a".to_string(), Arc::new(vec![]));
    cache.insert("b".to_string(), Arc::new(vec![]));
    assert!(cache.get("a").is_some());
    cache.insert("c".to_string(), Arc::new(vec![]));
    assert!(cache.get("b").is_none());
    assert!(cache.get("a").is_some());
    assert!(cache.get("c").is_some());
    assert_eq!(cache.len(), 2);
}

#[test]
fn cache_capacity_is_at_least_one() {
    let mut cache = SourceCache::new(0);
    cache.insert("a".to_string(), Arc::new(vec![]));
    cache.insert("b".to_string(), Arc::new(vec![]));
    assert!(cache.get("a").is_none());
    assert!(cache.get("b").is_some());
}

#[test]
fn cache_reinsert_replaces() {
    let mut cache = SourceCache::new(3);
    cache.insert("a".to_string(), Arc::new(vec![source("https://old")]));
    cache.insert("a".to_string(), Arc::new(vec![source("https://new")]));
    assert_eq!(cache.len(), 1);
    assert_eq!(cache.get("a").unwrap()[0].url, "https://new");
}

#[test]
fn merge_keeps_first_of_each_url() {
    let primary = vec![source(" https://x.com "), source("https://y.com")];
    let secondary = vec![source("https://x.com"), source("   "), source("https://z.com")];
    let merged = merge_sources(primary, secondary);
    let urls: Vec<&str> = merged.iter().map(|s| s.url.as_str()).collect();
    assert_eq!(urls, vec![" https://x.com ", "https://y.com", "https://z.com"]);
}

#[test]
fn source_builders_ignore_blank_text() {
    let s = source("https://a").with_title("  ".to_string()).with_description("d".to_string())
        .with_published_date("2024-01-01".to_string());
    assert_eq!(s.title, None);
    assert_eq!(s.description.as_deref(), Some("d"));
    assert_eq!(s.published_date.as_deref(), Some("2024-01-01"));
    assert_eq!(s.content, None);
}

#[test]
fn filters_and_names() {
    assert!(SearchFilters::none().is_empty());
    let f = SearchFilters { recency_days: Some(2), include_domains: vec![], exclude_domains: vec![] };
    assert!(!f.is_empty());
    assert_eq!(SearchProvider::Chatgpt2api.as_str(), "chatgpt2api");
    assert_eq!(SearchProvider::Tinyfish.as_str(), "tinyfish");
    assert!(ResponseFormat::default_format() == ResponseFormat::Detailed);
}

#[test]
fn error_messages() {
    assert_eq!(HybridSearchError::MissingConfig("X".to_string()).message(), "missing configuration: X");
    assert_eq!(HybridSearchError::InvalidParams("X".to_string()).message(), "invalid parameters: X");
    assert_eq!(HybridSearchError::Provider("X".to_string()).message(), "provider error: X");
    assert_eq!(HybridSearchError::Parse("X".to_string()).message(), "response parse error: X");
    assert_eq!(HybridSearchError::Timeout("X".to_string()).message(), "request timed out: X");
    assert_eq!(HybridSearchError::NotFound("X".to_string()).message(), "not found: X");
}

#[test]
fn help_topics_round_trip() {
    for t in [HelpTopic::WebSearch, HelpTopic::GetSources, HelpTopic::WebFetch, HelpTopic::WebMap, HelpTopic::Doctor, HelpTopic::Configuration] {
        assert!(parse_topic(t.as_str()) == Some(t));
    }
    assert!(parse_topic("config") == Some(HelpTopic::Configuration));
    assert!(parse_topic("search").is_none());
}

#[test]
fn help_index_renders() {
    let out = help(None);
    assert_eq!(out.topic, "hybrid-search");
    assert_eq!(out.topics.len(), 6);
    let text = render_cli(&out);
    assert!(text.starts_with("hybrid-search\n\n"));
    assert!(text.contains("\n\nUsage:\n  hybrid-search\n  hybrid-search help [topic]\n  hybrid-search --version"));
    assert!(text.contains("\n  web_search     "));
    assert!(text.contains("Run `hybrid-search help <topic>` for details."));
}

#[test]
fn help_topic_renders() {
    let out = help(Some(HelpTopic::WebFetch));
    assert_eq!(out.topic, "web_fetch");
    assert_eq!(out.usage.as_deref(), Some("web_fetch({ url, max_chars? })"));
    let text = render_cli(&out);
    assert!(text.starts_with("web_fetch\n\nFetch and extract one known HTTP or HTTPS URL.\n\nMCP usage:\n  web_fetch({ url, max_chars? })"));
    assert!(text.contains("\n\nDetails:\n  - "));
}

#[test]
fn command_line_arguments() {
    assert!(matches!(parse_args(&strings(&[])), CliCommand::Serve));
    assert!(matches!(parse_args(&strings(&["-V"])), CliCommand::Version));
    assert!(matches!(parse_args(&strings(&["--version"])), CliCommand::Version));
    assert!(matches!(parse_args(&strings(&["help"])), CliCommand::Help(None)));
    assert!(matches!(parse_args(&strings(&["help", "doctor"])), CliCommand::Help(Some(HelpTopic::Doctor))));
    assert!(matches!(parse_args(&strings(&["web_map", "help"])), CliCommand::Help(Some(HelpTopic::WebMap))));
    match parse_args(&strings(&["help", "nope"])) {
        CliCommand::Fail(m) => assert_eq!(m, "unknown help topic: nope; run `hybrid-search help`"),
        _ => panic!("expected a failure"),
    }
    match parse_args(&strings(&["--bogus", "x", "y"])) {
        CliCommand::Fail(m) => assert_eq!(m, "unknown argument: --bogus; run `hybrid-search help`"),
        _ => panic!("expected a failure"),
    }
}

#[test]
fn redaction_leaves_no_credential_behind() {
    let c = Config::from_map(env(&[("TAVILY_API_KEY", "k1,1x"), ("EXA_API_KEY", "xk")])).ok().unwrap();
    let out = c.redact_text("k1x then xk1 and 1xk");
    assert_eq!(out, "***x then x*** and ***k");
    for key in ["k1", "1x", "xk"] {
        assert!(!out.contains(key));
    }
}

#[test]
fn chat_endpoint_normalizes_to_itself() {
    for raw in ["http://h", "http://h/v1/", "http://h/v1/search//", "", "/", "http://h/api/v1"] {
        let once = normalize_chat_endpoint(raw.to_string());
        assert!(once.ends_with("/v1/search"));
        assert_eq!(normalize_chat_endpoint(once.clone()), once);
    }
}

#[test]
fn cache_stays_within_capacity_over_many_inserts() {
    let mut cache = SourceCache::new(3);
    for i in 0..10 {
        cache.insert(format!("k{i}"), Arc::new(vec![]));
        assert!(cache.len() <= 3);
        assert!(cache.get(&format!("k{i}")).is_some());
    }
    assert!(cache.get("k6").is_none());
    assert!(cache.get("k7").is_some());
}
