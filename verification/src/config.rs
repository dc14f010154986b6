use vstd::prelude::*;

use crate::error::HybridSearchError;
use crate::text::{
    chars_eq, chars_of, char_views, ends_with_chars, ends_with_spec, is_blank, parse_unsigned,
    parse_unsigned_spec, push_str, spec_is_whitespace, split_chars, split_spec, str_eq,
    contains_spec, lemma_replace_keeps_absent, lemma_replace_removes, replace_chars, replace_spec, string_from_chars, trim_chars, trim_end_char, trim_end_char_spec, trim_end_spec, trim_spec,
    trim_start_spec, trim_str, views,
};

verus! {

/// Runtime settings, read from environment variables.
pub struct Config {
    pub chatgpt2api_api_url: Option<String>,
    pub chatgpt2api_api_key: Option<String>,
    pub tavily_api_url: String,
    pub tavily_api_key: Option<String>,
    pub firecrawl_api_url: String,
    pub firecrawl_api_key: Option<String>,
    pub tinyfish_search_api_url: String,
    pub tinyfish_fetch_api_url: String,
    pub tinyfish_api_key: Option<String>,
    pub exa_api_url: String,
    pub exa_api_key: Option<String>,
    pub github_token: Option<String>,
    pub timeout_seconds: u64,
    pub default_extra_sources: usize,
    pub fallback_sources: usize,
    pub cache_size: usize,
    pub fetch_max_chars: Option<usize>,
    pub response_max_chars: usize,
    pub enrich_concurrency: usize,
    pub enrich_max_chars: usize,
    pub max_inline_sources: usize,
    pub github_max_comments: usize,
    pub source_max_answers: usize,
    pub source_providers: Vec<String>,
    pub source_providers_explicit: bool,
    pub debug_log_path: Option<String>,
}

// ---------------------------------------------------------------------------
// Reading variables
// ---------------------------------------------------------------------------

pub type EnvView = Seq<(Seq<char>, Seq<char>)>;

pub open spec fn env_view(values: Seq<(String, String)>) -> EnvView {
    values.map_values(|p: (String, String)| (p.0@, p.1@))
}

/// The value of `key`; a later pair wins over an earlier one, as in a map built from
/// the pairs.
pub open spec fn env_lookup(env: EnvView, key: Seq<char>) -> Option<Seq<char>>
    decreases env.len(),
{
    if env.len() == 0 {
        None
    } else if env.last().0 == key {
        Some(env.last().1)
    } else {
        env_lookup(env.drop_last(), key)
    }
}

/// The trimmed value of `key`, unless it is missing or blank.
pub open spec fn optional_spec(env: EnvView, key: Seq<char>) -> Option<Seq<char>> {
    match env_lookup(env, key) {
        Some(v) => if trim_spec(v).len() > 0 { Some(trim_spec(v)) } else { None },
        None => None,
    }
}

/// The value of `key`, or `default`, without trailing slashes.
pub open spec fn value_spec(env: EnvView, key: Seq<char>, default: Seq<char>) -> Seq<char> {
    match optional_spec(env, key) {
        Some(v) => trim_end_char_spec(v, '/'),
        None => trim_end_char_spec(default, '/'),
    }
}

/// The value of `key` read as an unsigned number no larger than `max`.
pub open spec fn number_spec(env: EnvView, key: Seq<char>, max: nat) -> Option<nat> {
    match optional_spec(env, key) {
        Some(v) => parse_unsigned_spec(v, max),
        None => None,
    }
}

pub open spec fn positive_u64_spec(env: EnvView, key: Seq<char>, default: nat) -> nat {
    match number_spec(env, key, u64::MAX as nat) {
        Some(n) => if n > 0 { n } else { default },
        None => default,
    }
}

pub open spec fn usize_value_spec(env: EnvView, key: Seq<char>, default: nat) -> nat {
    match number_spec(env, key, usize::MAX as nat) {
        Some(n) => n,
        None => default,
    }
}

pub open spec fn positive_usize_spec(env: EnvView, key: Seq<char>, default: nat) -> nat {
    let n = usize_value_spec(env, key, default);
    if n >= 1 { n } else { 1 }
}

pub open spec fn optional_positive_usize_spec(env: EnvView, key: Seq<char>) -> Option<nat> {
    match number_spec(env, key, usize::MAX as nat) {
        Some(n) => if n > 0 { Some(n) } else { None },
        None => None,
    }
}

/// A ChatGPT2API URL completed to its `/v1/search` endpoint.
pub open spec fn normalize_chat_endpoint_spec(v: Seq<char>) -> Seq<char> {
    let t = trim_end_char_spec(v, '/');
    if ends_with_spec(t, "/v1/search"@) {
        t
    } else if ends_with_spec(t, "/v1"@) {
        t + "/search"@
    } else {
        t + "/v1/search"@
    }
}

/// A ChatGPT2API endpoint always ends with `/v1/search`, and normalizing it again changes
/// nothing.
pub proof fn law_chat_endpoint_normal(v: Seq<char>)
    ensures
        ends_with_spec(normalize_chat_endpoint_spec(v), "/v1/search"@),
        normalize_chat_endpoint_spec(normalize_chat_endpoint_spec(v)) == normalize_chat_endpoint_spec(v),
{
    reveal_strlit("/v1/search");
    reveal_strlit("/v1");
    reveal_strlit("/search");
    let t = trim_end_char_spec(v, '/');
    let r = normalize_chat_endpoint_spec(v);
    if ends_with_spec(t, "/v1/search"@) {
    } else if ends_with_spec(t, "/v1"@) {
        assert(t.subrange(t.len() - 3, t.len() as int) == "/v1"@);
        assert(r.subrange(r.len() - 10, r.len() as int) =~= t.subrange(t.len() - 3, t.len() as int) + "/search"@);
    } else {
        assert(r.subrange(r.len() - 10, r.len() as int) =~= "/v1/search"@);
    }
    assert(r.len() >= 10);
    assert(r.subrange(r.len() - 10, r.len() as int) == "/v1/search"@);
    assert(ends_with_spec(r, "/v1/search"@));
    assert(r.subrange(r.len() - 10, r.len() as int)[9] == 'h');
    assert(r.last() == 'h');
    assert(trim_end_char_spec(r, '/') == r);
    assert(normalize_chat_endpoint_spec(r) == r);
}

/// The source providers that `HYBRID_SEARCH_SOURCE_PROVIDERS` may name.
pub open spec fn known_source_provider(name: Seq<char>) -> bool {
    ||| name == "tavily"@
    ||| name == "firecrawl"@
    ||| name == "tinyfish"@
    ||| name == "exa"@
}

pub open spec fn default_source_providers() -> Seq<Seq<char>> {
    seq!["tavily"@, "firecrawl"@, "tinyfish"@, "exa"@]
}

/// The trimmed, non-blank pieces, in order.
pub open spec fn trimmed_nonblank(pieces: Seq<Seq<char>>) -> Seq<Seq<char>>
    decreases pieces.len(),
{
    if pieces.len() == 0 {
        seq![]
    } else {
        let r = trimmed_nonblank(pieces.drop_last());
        let t = trim_spec(pieces.last());
        if t.len() > 0 { r.push(t) } else { r }
    }
}

/// The first name that is not a known source provider, if any.
pub open spec fn first_unknown(names: Seq<Seq<char>>) -> Option<Seq<char>>
    decreases names.len(),
{
    if names.len() == 0 {
        None
    } else if !known_source_provider(names[0]) {
        Some(names[0])
    } else {
        first_unknown(names.drop_first())
    }
}

/// The names listed in `HYBRID_SEARCH_SOURCE_PROVIDERS`, or the default order.
pub open spec fn source_provider_names(env: EnvView) -> Seq<Seq<char>> {
    match optional_spec(env, "HYBRID_SEARCH_SOURCE_PROVIDERS"@) {
        Some(v) => trimmed_nonblank(split_spec(v, ',')),
        None => default_source_providers(),
    }
}

pub open spec fn opt_string_view(o: Option<String>) -> Option<Seq<char>> {
    match o {
        Some(s) => Some(s@),
        None => None,
    }
}

pub open spec fn opt_usize_nat(o: Option<usize>) -> Option<nat> {
    match o {
        Some(n) => Some(n as nat),
        None => None,
    }
}

/// Whether ChatGPT2API has both its URL and its key.
pub open spec fn chat_complete(env: EnvView) -> bool {
    optional_spec(env, "CHATGPT2API_API_URL"@).is_some()
        && optional_spec(env, "CHATGPT2API_API_KEY"@).is_some()
}

/// Whether any search provider is configured.
pub open spec fn any_provider(env: EnvView) -> bool {
    ||| chat_complete(env)
    ||| optional_spec(env, "TAVILY_API_KEY"@).is_some()
    ||| optional_spec(env, "FIRECRAWL_API_KEY"@).is_some()
    ||| optional_spec(env, "TINYFISH_API_KEY"@).is_some()
    ||| optional_spec(env, "EXA_API_KEY"@).is_some()
}

pub open spec fn missing_config_message() -> Seq<char> {
    "configure CHATGPT2API_API_URL + CHATGPT2API_API_KEY, TAVILY_API_KEY, FIRECRAWL_API_KEY, TINYFISH_API_KEY, or EXA_API_KEY"@
}

pub open spec fn unknown_provider_message(name: Seq<char>) -> Seq<char> {
    "unknown provider in HYBRID_SEARCH_SOURCE_PROVIDERS: "@ + name
}

/// Every field of a configuration read from `env`.
pub open spec fn config_matches(c: Config, env: EnvView) -> bool {
    let chat = chat_complete(env);
    &&& opt_string_view(c.chatgpt2api_api_url) == if chat {
        Some(normalize_chat_endpoint_spec(optional_spec(env, "CHATGPT2API_API_URL"@).unwrap()))
    } else {
        None
    }
    &&& opt_string_view(c.chatgpt2api_api_key) == if chat {
        optional_spec(env, "CHATGPT2API_API_KEY"@)
    } else {
        None
    }
    &&& c.tavily_api_url@ == value_spec(env, "TAVILY_API_URL"@, "https://api.tavily.com"@)
    &&& opt_string_view(c.tavily_api_key) == optional_spec(env, "TAVILY_API_KEY"@)
    &&& c.firecrawl_api_url@ == value_spec(env, "FIRECRAWL_API_URL"@, "https://api.firecrawl.dev/v1"@)
    &&& opt_string_view(c.firecrawl_api_key) == optional_spec(env, "FIRECRAWL_API_KEY"@)
    &&& c.tinyfish_search_api_url@ == value_spec(env, "TINYFISH_SEARCH_API_URL"@, "https://api.search.tinyfish.ai"@)
    &&& c.tinyfish_fetch_api_url@ == value_spec(env, "TINYFISH_FETCH_API_URL"@, "https://api.fetch.tinyfish.ai"@)
    &&& opt_string_view(c.tinyfish_api_key) == optional_spec(env, "TINYFISH_API_KEY"@)
    &&& c.exa_api_url@ == value_spec(env, "EXA_API_URL"@, "https://api.exa.ai"@)
    &&& opt_string_view(c.exa_api_key) == optional_spec(env, "EXA_API_KEY"@)
    &&& opt_string_view(c.github_token) == optional_spec(env, "GITHUB_TOKEN"@)
    &&& c.timeout_seconds == positive_u64_spec(env, "HYBRID_SEARCH_TIMEOUT_SECONDS"@, 300)
    &&& c.default_extra_sources == usize_value_spec(env, "HYBRID_SEARCH_EXTRA_SOURCES"@, 3)
    &&& c.fallback_sources == usize_value_spec(env, "HYBRID_SEARCH_FALLBACK_SOURCES"@, 5)
    &&& c.cache_size == positive_usize_spec(env, "HYBRID_SEARCH_CACHE_SIZE"@, 256)
    &&& opt_usize_nat(c.fetch_max_chars) == optional_positive_usize_spec(env, "HYBRID_SEARCH_FETCH_MAX_CHARS"@)
    &&& c.response_max_chars == positive_usize_spec(env, "HYBRID_SEARCH_RESPONSE_MAX_CHARS"@, 45000)
    &&& c.enrich_concurrency == {
        let n = positive_usize_spec(env, "HYBRID_SEARCH_ENRICH_CONCURRENCY"@, 3);
        if n > 8 { 8 } else { n }
    }
    &&& c.enrich_max_chars == positive_usize_spec(env, "HYBRID_SEARCH_ENRICH_MAX_CHARS"@, 15000)
    &&& c.max_inline_sources == usize_value_spec(env, "HYBRID_SEARCH_MAX_INLINE_SOURCES"@, 5)
    &&& c.github_max_comments == positive_usize_spec(env, "HYBRID_SEARCH_GITHUB_MAX_COMMENTS"@, 30)
    &&& c.source_max_answers == positive_usize_spec(env, "HYBRID_SEARCH_SOURCE_MAX_ANSWERS"@, 5)
    &&& views(c.source_providers@) == source_provider_names(env)
    &&& c.source_providers_explicit == optional_spec(env, "HYBRID_SEARCH_SOURCE_PROVIDERS"@).is_some()
    &&& opt_string_view(c.debug_log_path) == optional_spec(env, "HYBRID_SEARCH_LOG_PATH"@)
}

/// The outcome of reading a configuration from `env`.
pub open spec fn from_map_ok(env: EnvView) -> bool {
    any_provider(env) && first_unknown(source_provider_names(env)).is_none()
}

// ---------------------------------------------------------------------------
// Executable readers
// ---------------------------------------------------------------------------

/// The raw value of `key`, the last one given.
fn lookup(values: &Vec<(String, String)>, key: &str) -> (r: Option<String>)
    ensures
        opt_string_view(r) == env_lookup(env_view(values@), key@),
{
    let ghost env = env_view(values@);
    let mut i = values.len();
    assert(env.subrange(0, env.len() as int) == env);
    while i > 0
        invariant
            i <= values.len(),
            env == env_view(values@),
            env_lookup(env, key@) == env_lookup(env.subrange(0, i as int), key@),
        decreases i,
    {
        let ghost sub = env.subrange(0, i as int);
        assert(sub.drop_last() == env.subrange(0, i - 1));
        assert(sub.last() == (values@[i - 1].0@, values@[i - 1].1@));
        if str_eq(values[i - 1].0.as_str(), key) {
            return Some(values[i - 1].1.clone());
        }
        i -= 1;
    }
    None
}

/// The trimmed value of `key`, unless it is missing or blank.
fn optional(values: &Vec<(String, String)>, key: &str) -> (r: Option<String>)
    ensures
        opt_string_view(r) == optional_spec(env_view(values@), key@),
{
    match lookup(values, key) {
        Some(v) => {
            let t = trim_str(v.as_str());
            if is_blank(t.as_str()) {
                proof {
                    lemma_trim_idempotent(v@);
                }
                None
            } else {
                proof {
                    lemma_trim_idempotent(v@);
                }
                Some(t)
            }
        }
        None => None,
    }
}

proof fn lemma_trim_start_stable(s: Seq<char>)
    ensures
        trim_start_spec(trim_start_spec(s)) == trim_start_spec(s),
        trim_start_spec(s).len() > 0 ==> !spec_is_whitespace(trim_start_spec(s)[0]),
    decreases s.len(),
{
    if s.len() > 0 && spec_is_whitespace(s[0]) {
        lemma_trim_start_stable(s.drop_first());
    }
}

proof fn lemma_trim_end_keeps_start(s: Seq<char>)
    requires
        s.len() > 0 ==> !spec_is_whitespace(s[0]),
    ensures
        trim_start_spec(trim_end_spec(s)) == trim_end_spec(s),
        trim_end_spec(trim_end_spec(s)) == trim_end_spec(s),
    decreases s.len(),
{
    if s.len() > 0 && spec_is_whitespace(s.last()) {
        let t = s.drop_last();
        if t.len() > 0 {
            assert(t[0] == s[0]);
        }
        lemma_trim_end_keeps_start(t);
    }
}

/// Trimming twice is trimming once.
pub proof fn lemma_trim_idempotent(s: Seq<char>)
    ensures
        trim_spec(trim_spec(s)) == trim_spec(s),
{
    lemma_trim_start_stable(s);
    lemma_trim_end_keeps_start(trim_start_spec(s));
}

/// The value of `key`, or `default`, without trailing slashes.
fn value(values: &Vec<(String, String)>, key: &str, default: &str) -> (r: String)
    ensures
        r@ == value_spec(env_view(values@), key@, default@),
{
    let chosen = match optional(values, key) {
        Some(v) => v,
        None => default.to_owned(),
    };
    let c = chars_of(chosen.as_str());
    let t = trim_end_char(&c, '/');
    string_from_chars(&t)
}

fn number(values: &Vec<(String, String)>, key: &str, max: u64) -> (r: Option<u64>)
    ensures
        match number_spec(env_view(values@), key@, max as nat) {
            Some(n) => r == Some(n as u64),
            None => r.is_none(),
        },
{
    match optional(values, key) {
        Some(v) => {
            let c = chars_of(v.as_str());
            parse_unsigned(&c, max)
        }
        None => None,
    }
}

/// A positive number read from `key`, or `default`.
fn positive_u64(values: &Vec<(String, String)>, key: &str, default: u64) -> (r: u64)
    ensures
        r == positive_u64_spec(env_view(values@), key@, default as nat),
{
    match number(values, key, u64::MAX) {
        Some(n) => if n > 0 { n } else { default },
        None => default,
    }
}

/// A number read from `key`, or `default`.
fn usize_value(values: &Vec<(String, String)>, key: &str, default: usize) -> (r: usize)
    ensures
        r == usize_value_spec(env_view(values@), key@, default as nat),
{
    match number(values, key, usize::MAX as u64) {
        Some(n) => n as usize,
        None => default,
    }
}

/// A number read from `key`, or `default`, and at least one.
fn positive_usize(values: &Vec<(String, String)>, key: &str, default: usize) -> (r: usize)
    ensures
        r == positive_usize_spec(env_view(values@), key@, default as nat),
{
    let n = usize_value(values, key, default);
    if n >= 1 { n } else { 1 }
}

/// A positive number read from `key`, if one is given.
fn optional_positive_usize(values: &Vec<(String, String)>, key: &str) -> (r: Option<usize>)
    ensures
        opt_usize_nat(r) == optional_positive_usize_spec(env_view(values@), key@),
{
    match number(values, key, usize::MAX as u64) {
        Some(n) => if n > 0 { Some(n as usize) } else { None },
        None => None,
    }
}

/// Completes a ChatGPT2API URL to its `/v1/search` endpoint.
pub fn normalize_chat_endpoint(value: String) -> (r: String)
    ensures
        r@ == normalize_chat_endpoint_spec(value@),
{
    let c = chars_of(value.as_str());
    let t = trim_end_char(&c, '/');
    let search = chars_of("/v1/search");
    let v1 = chars_of("/v1");
    let mut out = string_from_chars(&t);
    if ends_with_chars(&t, &search) {
        out
    } else if ends_with_chars(&t, &v1) {
        push_str(&mut out, "/search");
        out
    } else {
        push_str(&mut out, "/v1/search");
        out
    }
}

fn is_known_source_provider(name: &Vec<char>) -> (r: bool)
    ensures
        r == known_source_provider(name@),
{
    let tavily = chars_of("tavily");
    let firecrawl = chars_of("firecrawl");
    let tinyfish = chars_of("tinyfish");
    let exa = chars_of("exa");
    chars_eq(name, &tavily) || chars_eq(name, &firecrawl) || chars_eq(name, &tinyfish)
        || chars_eq(name, &exa)
}

/// The trimmed, non-blank pieces of `pieces`.
pub fn trimmed_nonblank_pieces(pieces: &Vec<Vec<char>>) -> (out: Vec<String>)
    ensures
        views(out@) == trimmed_nonblank(char_views(pieces@)),
{
    let mut out: Vec<String> = Vec::new();
    let mut i: usize = 0;
    while i < pieces.len()
        invariant
            i <= pieces.len(),
            views(out@) == trimmed_nonblank(char_views(pieces@.subrange(0, i as int))),
        decreases pieces.len() - i,
    {
        let ghost pre = char_views(pieces@.subrange(0, i as int));
        assert(char_views(pieces@.subrange(0, i + 1)).drop_last() == pre);
        assert(char_views(pieces@.subrange(0, i + 1)).last() == pieces@[i as int]@);
        let t = trim_chars(&pieces[i]);
        if t.len() > 0 {
            let s = string_from_chars(&t);
            out.push(s);
            assert(views(out@) == views(out@.drop_last()).push(s@));
        }
        i += 1;
    }
    assert(pieces@.subrange(0, pieces@.len() as int) == pieces@);
    out
}

/// The provider order, or the first unknown name in it.
fn source_providers(values: &Vec<(String, String)>) -> (r: Result<Vec<String>, String>)
    ensures
        match r {
            Ok(v) => first_unknown(source_provider_names(env_view(values@))).is_none()
                && views(v@) == source_provider_names(env_view(values@)),
            Err(name) => first_unknown(source_provider_names(env_view(values@))) == Some(name@),
        },
{
    let names: Vec<String> = match optional(values, "HYBRID_SEARCH_SOURCE_PROVIDERS") {
        Some(v) => {
            let c = chars_of(v.as_str());
            let pieces = split_chars(&c, ',');
            trimmed_nonblank_pieces(&pieces)
        }
        None => {
            let mut d: Vec<String> = Vec::new();
            d.push("tavily".to_owned());
            d.push("firecrawl".to_owned());
            d.push("tinyfish".to_owned());
            d.push("exa".to_owned());
            assert(views(d@) =~= default_source_providers());
            d
        }
    };
    let ghost all = views(names@);
    let mut i: usize = 0;
    assert(all.skip(0) == all);
    while i < names.len()
        invariant
            i <= names.len(),
            all == views(names@),
            all == source_provider_names(env_view(values@)),
            first_unknown(all) == first_unknown(all.skip(i as int)),
        decreases names.len() - i,
    {
        let c = chars_of(names[i].as_str());
        assert(all.skip(i as int)[0] == names@[i as int]@);
        assert(all.skip(i as int).drop_first() == all.skip(i + 1));
        if !is_known_source_provider(&c) {
            return Err(names[i].clone());
        }
        i += 1;
    }
    assert(all.skip(i as int).len() == 0);
    Ok(names)
}

impl Config {
    /// Reads the configuration from name/value pairs; a later pair for the same name wins.
    /// Fails when no search provider is configured or when the provider order names an
    /// unknown provider.
    pub fn from_map(values: Vec<(String, String)>) -> (r: Result<Config, HybridSearchError>)
        ensures
            match r {
                Ok(c) => from_map_ok(env_view(values@)) && config_matches(c, env_view(values@)),
                Err(HybridSearchError::MissingConfig(m)) => !any_provider(env_view(values@))
                    && m@ == missing_config_message(),
                Err(HybridSearchError::InvalidParams(m)) => any_provider(env_view(values@))
                    && first_unknown(source_provider_names(env_view(values@))).is_some()
                    && m@ == unknown_provider_message(
                    first_unknown(source_provider_names(env_view(values@))).unwrap(),
                ),
                Err(_) => false,
            },
    {
        let chat_url = optional(&values, "CHATGPT2API_API_URL");
        let chat_key = optional(&values, "CHATGPT2API_API_KEY");
        let tavily_key = optional(&values, "TAVILY_API_KEY");
        let firecrawl_key = optional(&values, "FIRECRAWL_API_KEY");
        let tinyfish_key = optional(&values, "TINYFISH_API_KEY");
        let exa_key = optional(&values, "EXA_API_KEY");
        let chat = chat_url.is_some() && chat_key.is_some();
        if !chat && tavily_key.is_none() && firecrawl_key.is_none() && tinyfish_key.is_none()
            && exa_key.is_none() {
            return Err(HybridSearchError::MissingConfig(
                "configure CHATGPT2API_API_URL + CHATGPT2API_API_KEY, TAVILY_API_KEY, FIRECRAWL_API_KEY, TINYFISH_API_KEY, or EXA_API_KEY".to_owned(),
            ));
        }
        let providers = match source_providers(&values) {
            Ok(p) => p,
            Err(name) => {
                let mut m = String::new();
                push_str(&mut m, "unknown provider in HYBRID_SEARCH_SOURCE_PROVIDERS: ");
                push_str(&mut m, name.as_str());
                return Err(HybridSearchError::InvalidParams(m));
            }
        };
        let (chatgpt2api_api_url, chatgpt2api_api_key) = if chat {
            match chat_url {
                Some(u) => (Some(normalize_chat_endpoint(u)), chat_key),
                None => (None, None),
            }
        } else {
            (None, None)
        };
        let concurrency = positive_usize(&values, "HYBRID_SEARCH_ENRICH_CONCURRENCY", 3);
        let c = Config {
            chatgpt2api_api_url,
            chatgpt2api_api_key,
            tavily_api_url: value(&values, "TAVILY_API_URL", "https://api.tavily.com"),
            tavily_api_key: tavily_key,
            firecrawl_api_url: value(&values, "FIRECRAWL_API_URL", "https://api.firecrawl.dev/v1"),
            firecrawl_api_key: firecrawl_key,
            tinyfish_search_api_url: value(&values, "TINYFISH_SEARCH_API_URL", "https://api.search.tinyfish.ai"),
            tinyfish_fetch_api_url: value(&values, "TINYFISH_FETCH_API_URL", "https://api.fetch.tinyfish.ai"),
            tinyfish_api_key: tinyfish_key,
            exa_api_url: value(&values, "EXA_API_URL", "https://api.exa.ai"),
            exa_api_key: exa_key,
            github_token: optional(&values, "GITHUB_TOKEN"),
            timeout_seconds: positive_u64(&values, "HYBRID_SEARCH_TIMEOUT_SECONDS", 300),
            default_extra_sources: usize_value(&values, "HYBRID_SEARCH_EXTRA_SOURCES", 3),
            fallback_sources: usize_value(&values, "HYBRID_SEARCH_FALLBACK_SOURCES", 5),
            cache_size: positive_usize(&values, "HYBRID_SEARCH_CACHE_SIZE", 256),
            fetch_max_chars: optional_positive_usize(&values, "HYBRID_SEARCH_FETCH_MAX_CHARS"),
            response_max_chars: positive_usize(&values, "HYBRID_SEARCH_RESPONSE_MAX_CHARS", 45000),
            enrich_concurrency: if concurrency > 8 { 8 } else { concurrency },
            enrich_max_chars: positive_usize(&values, "HYBRID_SEARCH_ENRICH_MAX_CHARS", 15000),
            max_inline_sources: usize_value(&values, "HYBRID_SEARCH_MAX_INLINE_SOURCES", 5),
            github_max_comments: positive_usize(&values, "HYBRID_SEARCH_GITHUB_MAX_COMMENTS", 30),
            source_max_answers: positive_usize(&values, "HYBRID_SEARCH_SOURCE_MAX_ANSWERS", 5),
            source_providers: providers,
            source_providers_explicit: optional(&values, "HYBRID_SEARCH_SOURCE_PROVIDERS").is_some(),
            debug_log_path: optional(&values, "HYBRID_SEARCH_LOG_PATH"),
        };
        Ok(c)
    }
}

// ---------------------------------------------------------------------------
// Questions about a configuration
// ---------------------------------------------------------------------------

/// The keys in a comma-separated key list; the whole value when no piece is left.
pub open spec fn key_list_spec(value: Seq<char>) -> Seq<Seq<char>> {
    let keys = trimmed_nonblank(split_spec(value, ','));
    if keys.len() == 0 { seq![value] } else { keys }
}

/// Splits a comma-separated key list.
pub fn key_list(value: &str) -> (keys: Vec<String>)
    ensures
        views(keys@) == key_list_spec(value@),
        keys@.len() >= 1,
{
    let c = chars_of(value);
    let pieces = split_chars(&c, ',');
    let mut keys = trimmed_nonblank_pieces(&pieces);
    if keys.len() == 0 {
        keys.push(value.to_owned());
        assert(views(keys@) =~= seq![value@]);
    }
    keys
}

/// Applies `replace(secret, "***")` for each secret in turn.
pub open spec fn redact_all(text: Seq<char>, secrets: Seq<Seq<char>>) -> Seq<char>
    decreases secrets.len(),
{
    if secrets.len() == 0 {
        text
    } else {
        replace_spec(redact_all(text, secrets.drop_last()), secrets.last(), "***"@)
    }
}

/// No credential survives redaction: a credential that is not empty and holds no `*`
/// occurs nowhere in the redacted text, whatever the other credentials are.
pub proof fn law_redaction_hides_secret(text: Seq<char>, secrets: Seq<Seq<char>>, k: int)
    requires
        0 <= k < secrets.len(),
        secrets[k].len() > 0,
        !secrets[k].contains('*'),
    ensures
        !contains_spec(redact_all(text, secrets), secrets[k]),
    decreases secrets.len(),
{
    let prev = secrets.drop_last();
    if k == secrets.len() - 1 {
        lemma_replace_removes(redact_all(text, prev), secrets[k]);
    } else {
        assert(prev[k] == secrets[k]);
        law_redaction_hides_secret(text, prev, k);
        lemma_replace_keeps_absent(redact_all(text, prev), secrets.last(), secrets[k]);
    }
}

pub open spec fn opt_seq(o: Option<String>) -> Seq<Seq<char>> {
    match o {
        Some(s) => seq![s@],
        None => seq![],
    }
}

fn push_opt(r: &mut Vec<String>, o: &Option<String>)
    ensures
        views(final(r)@) == views(old(r)@) + opt_seq(*o),
{
    if let Some(k) = o {
        r.push(k.clone());
    }
    assert(views(r@) =~= views(old(r)@) + opt_seq(*o));
}

fn push_all(r: &mut Vec<String>, keys: &Vec<String>)
    ensures
        views(final(r)@) == views(old(r)@) + views(keys@),
{
    let ghost a = views(r@);
    let mut i: usize = 0;
    while i < keys.len()
        invariant
            i <= keys.len(),
            views(r@) == a + views(keys@).subrange(0, i as int),
        decreases keys.len() - i,
    {
        let ghost prev = views(r@);
        r.push(keys[i].clone());
        assert(views(keys@).subrange(0, i + 1) == views(keys@).subrange(0, i as int).push(keys@[i as int]@));
        assert(views(r@) =~= prev.push(keys@[i as int]@));
        assert(a + views(keys@).subrange(0, i + 1) =~= (a + views(keys@).subrange(0, i as int)).push(keys@[i as int]@));
        i += 1;
    }
    assert(views(keys@).subrange(0, keys@.len() as int) == views(keys@));
}

impl Config {
    /// The credentials that diagnostics must never show.
    pub open spec fn secrets_spec(&self) -> Seq<Seq<char>> {
        opt_seq(self.chatgpt2api_api_key) + match self.tavily_api_key {
            Some(k) => key_list_spec(k@),
            None => seq![],
        } + opt_seq(self.firecrawl_api_key) + opt_seq(self.tinyfish_api_key)
            + opt_seq(self.exa_api_key) + opt_seq(self.github_token)
    }

    pub open spec fn provider_configured_spec(&self, name: Seq<char>) -> bool {
        if name == "chatgpt2api"@ {
            self.chatgpt2api_api_url.is_some() && self.chatgpt2api_api_key.is_some()
        } else if name == "tavily"@ {
            self.tavily_api_key.is_some()
        } else if name == "firecrawl"@ {
            self.firecrawl_api_key.is_some()
        } else if name == "tinyfish"@ {
            self.tinyfish_api_key.is_some()
        } else if name == "exa"@ {
            self.exa_api_key.is_some()
        } else {
            false
        }
    }

    /// The providers that have credentials, in the fixed order of the documentation.
    pub open spec fn configured_providers_spec(&self) -> Seq<Seq<char>> {
        (if self.chatgpt2api_api_url.is_some() && self.chatgpt2api_api_key.is_some() {
            seq!["chatgpt2api"@]
        } else {
            seq![]
        }) + (if self.tavily_api_key.is_some() { seq!["tavily"@] } else { seq![] }) + (
        if self.firecrawl_api_key.is_some() {
            seq!["firecrawl"@]
        } else {
            seq![]
        }) + (if self.tinyfish_api_key.is_some() { seq!["tinyfish"@] } else { seq![] }) + (
        if self.exa_api_key.is_some() {
            seq!["exa"@]
        } else {
            seq![]
        })
    }

    /// The enabled source providers that have credentials, in the configured order.
    pub open spec fn configured_sources(&self, names: Seq<Seq<char>>) -> Seq<Seq<char>>
        decreases names.len(),
    {
        if names.len() == 0 {
            seq![]
        } else {
            let r = self.configured_sources(names.drop_last());
            if self.provider_configured_spec(names.last()) { r.push(names.last()) } else { r }
        }
    }

    /// The order in which an automatic search tries providers.
    pub open spec fn effective_order_spec(&self) -> Seq<Seq<char>> {
        (if self.provider_configured_spec("chatgpt2api"@) {
            seq!["chatgpt2api"@]
        } else {
            seq![]
        }) + self.configured_sources(views(self.source_providers@))
    }

    /// The providers that have credentials.
    pub fn configured_providers(&self) -> (r: Vec<&'static str>)
        ensures
            r@.map_values(|s: &'static str| s@) == self.configured_providers_spec(),
    {
        let mut providers: Vec<&'static str> = Vec::new();
        if self.chatgpt2api_api_url.is_some() && self.chatgpt2api_api_key.is_some() {
            providers.push("chatgpt2api");
        }
        if self.tavily_api_key.is_some() {
            providers.push("tavily");
        }
        if self.firecrawl_api_key.is_some() {
            providers.push("firecrawl");
        }
        if self.tinyfish_api_key.is_some() {
            providers.push("tinyfish");
        }
        if self.exa_api_key.is_some() {
            providers.push("exa");
        }
        assert(providers@.map_values(|s: &'static str| s@) =~= self.configured_providers_spec());
        providers
    }

    /// Whether the named provider has its credentials.
    pub fn provider_configured(&self, name: &str) -> (r: bool)
        ensures
            r == self.provider_configured_spec(name@),
    {
        if str_eq(name, "chatgpt2api") {
            self.chatgpt2api_api_url.is_some() && self.chatgpt2api_api_key.is_some()
        } else if str_eq(name, "tavily") {
            self.tavily_api_key.is_some()
        } else if str_eq(name, "firecrawl") {
            self.firecrawl_api_key.is_some()
        } else if str_eq(name, "tinyfish") {
            self.tinyfish_api_key.is_some()
        } else if str_eq(name, "exa") {
            self.exa_api_key.is_some()
        } else {
            false
        }
    }

    /// Whether the provider order lists the named source provider.
    pub fn source_provider_enabled(&self, name: &str) -> (r: bool)
        ensures
            r == views(self.source_providers@).contains(name@),
    {
        let ghost all = views(self.source_providers@);
        let mut i: usize = 0;
        while i < self.source_providers.len()
            invariant
                i <= self.source_providers.len(),
                all == views(self.source_providers@),
                forall|j: int| 0 <= j < i ==> all[j] != name@,
            decreases self.source_providers.len() - i,
        {
            if str_eq(self.source_providers[i].as_str(), name) {
                assert(all[i as int] == name@);
                return true;
            }
            i += 1;
        }
        proof {
            if all.contains(name@) {
                let j = choose|j: int| 0 <= j < all.len() && all[j] == name@;
                assert(all[j] != name@);
            }
        }
        false
    }

    /// ChatGPT2API when configured, then each enabled and configured source provider.
    pub fn effective_provider_order(&self) -> (r: Vec<String>)
        ensures
            views(r@) == self.effective_order_spec(),
    {
        let mut order: Vec<String> = Vec::new();
        if self.provider_configured("chatgpt2api") {
            order.push("chatgpt2api".to_owned());
        }
        let ghost head = views(order@);
        let ghost names = views(self.source_providers@);
        let mut i: usize = 0;
        while i < self.source_providers.len()
            invariant
                i <= self.source_providers.len(),
                names == views(self.source_providers@),
                head == (if self.provider_configured_spec("chatgpt2api"@) {
                    seq!["chatgpt2api"@]
                } else {
                    seq![]
                }),
                views(order@) == head + self.configured_sources(names.subrange(0, i as int)),
            decreases self.source_providers.len() - i,
        {
            assert(names.subrange(0, i + 1).drop_last() == names.subrange(0, i as int));
            assert(names.subrange(0, i + 1).last() == self.source_providers@[i as int]@);
            if self.provider_configured(self.source_providers[i].as_str()) {
                let name = self.source_providers[i].clone();
                let ghost prev = views(order@);
                order.push(name);
                assert(views(order@) =~= prev.push(name@));
                assert(head + self.configured_sources(names.subrange(0, i as int)).push(name@)
                    =~= (head + self.configured_sources(names.subrange(0, i as int))).push(name@));
            }
            i += 1;
        }
        assert(names.subrange(0, names.len() as int) == names);
        order
    }

    /// The credentials, in a fixed order.
    pub fn secrets(&self) -> (r: Vec<String>)
        ensures
            views(r@) == self.secrets_spec(),
    {
        let mut r: Vec<String> = Vec::new();
        push_opt(&mut r, &self.chatgpt2api_api_key);
        let ghost a = views(r@);
        if let Some(k) = &self.tavily_api_key {
            let keys = key_list(k.as_str());
            push_all(&mut r, &keys);
        } else {
            assert(a + Seq::<Seq<char>>::empty() =~= a);
        }
        push_opt(&mut r, &self.firecrawl_api_key);
        push_opt(&mut r, &self.tinyfish_api_key);
        push_opt(&mut r, &self.exa_api_key);
        push_opt(&mut r, &self.github_token);
        assert(views(r@) =~= self.secrets_spec());
        r
    }

    /// Masks every credential that occurs in `text` with `***`.
    pub fn redact_text(&self, text: &str) -> (r: String)
        ensures
            r@ == redact_all(text@, self.secrets_spec()),
    {
        let secrets = self.secrets();
        let mut current = chars_of(text);
        let stars = chars_of("***");
        let mut i: usize = 0;
        while i < secrets.len()
            invariant
                i <= secrets.len(),
                stars@ == "***"@,
                current@ == redact_all(text@, views(secrets@).subrange(0, i as int)),
            decreases secrets.len() - i,
        {
            let pat = chars_of(secrets[i].as_str());
            assert(views(secrets@).subrange(0, i + 1).drop_last() == views(secrets@).subrange(0, i as int));
            current = replace_chars(&current, &pat, &stars);
            i += 1;
        }
        assert(views(secrets@).subrange(0, secrets@.len() as int) == views(secrets@));
        string_from_chars(&current)
    }
}

} // verus!
