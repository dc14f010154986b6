use vstd::prelude::*;

use std::sync::Arc;

use crate::budget::{apply_response_budget, budget_spec, response_total};
use crate::cache::{insert_spec, CachedSources, SourceCache};
use crate::config::{redact_all, Config};
use crate::error::{error_message_spec, HybridSearchError};
use crate::model::{
    dedup_sources, merge_sources, source_views, FetchedPage, ResponseFormat, SearchFilters,
    SearchProvider, Source, SourceView, WebFetchOutput, WebSearchInput, WebSearchOutput,
};
use crate::providers::chatgpt2api::ChatSearchResult;
use crate::service::{copy_sources, normalize_domains, normalize_domains_spec, provider_key_name, provider_key_name_spec, truncate_spec, truncate_text};
use crate::text::{
    chars_of, is_blank, join_spec, join_strings, push_str, str_eq, trim_spec, trim_str, views,
};
use crate::urls::{parse_url, parts_view, url_parts, UrlParts};

verus! {

// ---------------------------------------------------------------------------
// A search request
// ---------------------------------------------------------------------------

/// What a valid search request asks for.
pub struct SearchPlan {
    pub query: String,
    pub provider: Option<SearchProvider>,
    pub filters: SearchFilters,
    pub include_content: bool,
    pub extra_sources: Option<usize>,
}

/// Whether inline content is wanted: the response format decides, else `include_content`,
/// else yes.
pub open spec fn include_content_spec(format: Option<ResponseFormat>, wanted: Option<bool>) -> bool {
    match format {
        Some(ResponseFormat::Concise) => false,
        Some(ResponseFormat::Detailed) => true,
        None => match wanted {
            Some(b) => b,
            None => true,
        },
    }
}

/// Checks a search request and reads what it asks for: a query that is not blank, a
/// positive recency, normalized domain filters.
pub fn plan_search(input: WebSearchInput) -> (r: Result<SearchPlan, HybridSearchError>)
    ensures
        match r {
            Ok(p) => {
                &&& trim_spec(input.query@).len() > 0
                &&& input.recency_days != Some(0u32)
                &&& p.query@ == trim_spec(input.query@)
                &&& p.provider == input.provider
                &&& p.filters.recency_days == input.recency_days
                &&& views(p.filters.include_domains@) == normalize_domains_spec(views(input.include_domains@))
                &&& views(p.filters.exclude_domains@) == normalize_domains_spec(views(input.exclude_domains@))
                &&& p.include_content == include_content_spec(input.response_format, input.include_content)
                &&& p.extra_sources == input.extra_sources
            },
            Err(HybridSearchError::InvalidParams(m)) => if trim_spec(input.query@).len() == 0 {
                m@ == "web_search.query must not be empty"@
            } else {
                input.recency_days == Some(0u32) && m@ == "web_search.recency_days must be greater than zero"@
            },
            Err(_) => false,
        },
{
    let query = trim_str(input.query.as_str());
    if is_blank(query.as_str()) {
        proof {
            crate::config::lemma_trim_idempotent(input.query@);
        }
        return Err(HybridSearchError::InvalidParams("web_search.query must not be empty".to_owned()));
    }
    proof {
        crate::config::lemma_trim_idempotent(input.query@);
    }
    if input.recency_days == Some(0u32) {
        return Err(HybridSearchError::InvalidParams(
            "web_search.recency_days must be greater than zero".to_owned(),
        ));
    }
    let include_content = match input.response_format {
        Some(ResponseFormat::Concise) => false,
        Some(ResponseFormat::Detailed) => true,
        None => match input.include_content {
            Some(b) => b,
            None => true,
        },
    };
    Ok(SearchPlan {
        query,
        provider: input.provider,
        filters: SearchFilters {
            recency_days: input.recency_days,
            include_domains: normalize_domains(input.include_domains),
            exclude_domains: normalize_domains(input.exclude_domains),
        },
        include_content,
        extra_sources: input.extra_sources,
    })
}

// ---------------------------------------------------------------------------
// Provider outcomes
// ---------------------------------------------------------------------------

/// What a ChatGPT2API search came to.
pub enum ChatOutcome {
    Answered(ChatSearchResult),
    Failed(HybridSearchError),
    TimedOut,
}

/// What a source-provider search came to.
pub enum SourceOutcome {
    Found(Vec<Source>),
    Failed(HybridSearchError),
    TimedOut,
}

/// The route a search took, and what it found.
pub struct RouteResult {
    pub answer: Option<String>,
    pub sources: Vec<Source>,
    pub search_provider: String,
    pub supplemental_provider: Option<String>,
    pub fallback_used: bool,
}

/// A note about a provider: `"{name}: {detail}"`.
fn provider_note(name: &str, detail: &str) -> (r: String)
    ensures
        r@ == name@ + ": "@ + detail@,
{
    let mut n = name.to_owned();
    push_str(&mut n, ": ");
    push_str(&mut n, detail);
    n
}

/// A note that a provider found nothing: `"{name} returned no sources"`.
fn no_sources_note(name: &str) -> (r: String)
    ensures
        r@ == name@ + " returned no sources"@,
{
    let mut n = name.to_owned();
    push_str(&mut n, " returned no sources");
    n
}

/// The first `n` elements of `v`, or all of them.
pub open spec fn take_at_most<A>(v: Seq<A>, n: nat) -> Seq<A> {
    if v.len() <= n { v } else { v.take(n as int) }
}

/// A selected ChatGPT2API search: its answer and sources, or the failure it stands for.
pub fn selected_chat(outcome: Option<ChatOutcome>) -> (r: Result<RouteResult, HybridSearchError>)
    ensures
        match outcome {
            None => r matches Err(HybridSearchError::MissingConfig(m)) && m@ == "CHATGPT2API_API_URL + CHATGPT2API_API_KEY"@,
            Some(ChatOutcome::Answered(res)) => if res.sources@.len() == 0 {
                r matches Err(HybridSearchError::Provider(m)) && m@ == "chatgpt2api returned no sources"@
            } else {
                r matches Ok(rr) && {
                    &&& rr.answer == res.answer
                    &&& source_views(rr.sources@) == dedup_sources(source_views(res.sources@))
                    &&& rr.search_provider@ == "chatgpt2api"@
                    &&& rr.supplemental_provider.is_none()
                    &&& !rr.fallback_used
                }
            },
            Some(ChatOutcome::Failed(e)) => r == Err::<RouteResult, _>(e),
            Some(ChatOutcome::TimedOut) => r matches Err(HybridSearchError::Timeout(m)) && m@ == "ChatGPT2API search request"@,
        },
{
    match outcome {
        None => Err(HybridSearchError::MissingConfig("CHATGPT2API_API_URL + CHATGPT2API_API_KEY".to_owned())),
        Some(ChatOutcome::Answered(res)) => {
            if res.sources.len() == 0 {
                Err(HybridSearchError::Provider("chatgpt2api returned no sources".to_owned()))
            } else {
                let ghost rs = source_views(res.sources@);
                let sources = merge_sources(Vec::new(), res.sources);
                assert(Seq::<Source>::empty() + res.sources@ == res.sources@);
                Ok(RouteResult {
                    answer: res.answer,
                    sources,
                    search_provider: "chatgpt2api".to_owned(),
                    supplemental_provider: None,
                    fallback_used: false,
                })
            }
        }
        Some(ChatOutcome::Failed(e)) => Err(e),
        Some(ChatOutcome::TimedOut) => Err(HybridSearchError::Timeout("ChatGPT2API search request".to_owned())),
    }
}

/// Checks that a selected source provider may serve the request.
pub fn check_selected_source(
    config: &Config,
    name: &str,
    available: bool,
    supports_filters: bool,
    filters: &SearchFilters,
) -> (r: Result<(), HybridSearchError>)
    ensures
        match r {
            Ok(()) => views(config.source_providers@).contains(name@) && available
                && (filters.is_empty_spec() || supports_filters),
            Err(HybridSearchError::InvalidParams(m)) => if !views(config.source_providers@).contains(name@) {
                m@ == "provider '"@ + name@ + "' is disabled by HYBRID_SEARCH_SOURCE_PROVIDERS"@
            } else {
                available && !filters.is_empty_spec() && !supports_filters
                    && m@ == "provider '"@ + name@ + "' cannot enforce domain or recency filters"@
            },
            Err(HybridSearchError::MissingConfig(m)) => views(config.source_providers@).contains(name@)
                && !available && m@ == provider_key_name_spec(name@),
            Err(_) => false,
        },
{
    if !config.source_provider_enabled(name) {
        let mut m = String::new();
        push_str(&mut m, "provider '");
        push_str(&mut m, name);
        push_str(&mut m, "' is disabled by HYBRID_SEARCH_SOURCE_PROVIDERS");
        return Err(HybridSearchError::InvalidParams(m));
    }
    if !available {
        return Err(HybridSearchError::MissingConfig(provider_key_name(name).to_owned()));
    }
    if !filters.is_empty() && !supports_filters {
        let mut m = String::new();
        push_str(&mut m, "provider '");
        push_str(&mut m, name);
        push_str(&mut m, "' cannot enforce domain or recency filters");
        return Err(HybridSearchError::InvalidParams(m));
    }
    Ok(())
}

/// Merged and cut to `max_results`.
fn dedup_and_cut(sources: Vec<Source>, max_results: usize) -> (r: Vec<Source>)
    ensures
        source_views(r@) == take_at_most(dedup_sources(source_views(sources@)), max_results as nat),
{
    let mut merged = merge_sources(Vec::new(), sources);
    assert(Seq::<Source>::empty() + sources@ == sources@);
    let ghost m = source_views(merged@);
    merged.truncate(max_results);
    assert(source_views(merged@) =~= take_at_most(m, max_results as nat));
    merged
}

/// A selected source-provider search: at most `max_results` distinct sources, or the failure
/// it stands for.
pub fn selected_source(name: &str, outcome: SourceOutcome, max_results: usize) -> (r: Result<RouteResult, HybridSearchError>)
    ensures
        match outcome {
            SourceOutcome::Found(found) => {
                let kept = take_at_most(dedup_sources(source_views(found@)), max_results as nat);
                if kept.len() == 0 {
                    r matches Err(HybridSearchError::Provider(m)) && m@ == name@ + " returned no sources"@
                } else {
                    r matches Ok(rr) && {
                        &&& rr.answer.is_none()
                        &&& source_views(rr.sources@) == kept
                        &&& rr.search_provider@ == name@
                        &&& rr.supplemental_provider.is_none()
                        &&& !rr.fallback_used
                    }
                }
            },
            SourceOutcome::Failed(e) => r == Err::<RouteResult, _>(e),
            SourceOutcome::TimedOut => r matches Err(HybridSearchError::Timeout(m)) && m@ == name@ + " search request"@,
        },
{
    match outcome {
        SourceOutcome::Found(found) => {
            let kept = dedup_and_cut(found, max_results);
            if kept.len() == 0 {
                Err(HybridSearchError::Provider(no_sources_note(name)))
            } else {
                Ok(RouteResult {
                    answer: None,
                    sources: kept,
                    search_provider: name.to_owned(),
                    supplemental_provider: None,
                    fallback_used: false,
                })
            }
        }
        SourceOutcome::Failed(e) => Err(e),
        SourceOutcome::TimedOut => {
            let mut m = name.to_owned();
            push_str(&mut m, " search request");
            Err(HybridSearchError::Timeout(m))
        }
    }
}

// ---------------------------------------------------------------------------
// The automatic route
// ---------------------------------------------------------------------------

/// What the first, ChatGPT2API, step of an automatic search left.
pub struct PrimaryState {
    pub answer: Option<String>,
    pub sources: Vec<Source>,
    pub usable: bool,
    pub notes: Vec<String>,
}

/// The state after the ChatGPT2API step; `None` when ChatGPT2API is not configured.
pub fn after_primary(outcome: Option<ChatOutcome>) -> (r: PrimaryState)
    ensures
        match outcome {
            Some(ChatOutcome::Answered(res)) => if res.sources@.len() > 0 {
                &&& r.usable
                &&& r.answer == res.answer
                &&& source_views(r.sources@) == dedup_sources(source_views(res.sources@))
                &&& r.notes@.len() == 0
            } else {
                &&& !r.usable && r.answer.is_none() && r.sources@.len() == 0
                &&& views(r.notes@) == seq!["chatgpt2api returned no sources"@]
            },
            Some(ChatOutcome::Failed(e)) => {
                &&& !r.usable && r.answer.is_none() && r.sources@.len() == 0
                &&& views(r.notes@) == seq!["chatgpt2api"@ + ": "@ + error_message_spec(e)]
            },
            Some(ChatOutcome::TimedOut) => {
                &&& !r.usable && r.answer.is_none() && r.sources@.len() == 0
                &&& views(r.notes@) == seq!["chatgpt2api: request deadline reached"@]
            },
            None => !r.usable && r.answer.is_none() && r.sources@.len() == 0 && r.notes@.len() == 0,
        },
{
    let mut notes: Vec<String> = Vec::new();
    match outcome {
        Some(ChatOutcome::Answered(res)) => {
            if res.sources.len() > 0 {
                let sources = merge_sources(Vec::new(), res.sources);
                assert(Seq::<Source>::empty() + res.sources@ == res.sources@);
                PrimaryState { answer: res.answer, sources, usable: true, notes }
            } else {
                notes.push("chatgpt2api returned no sources".to_owned());
                assert(views(notes@) =~= seq!["chatgpt2api returned no sources"@]);
                PrimaryState { answer: None, sources: Vec::new(), usable: false, notes }
            }
        }
        Some(ChatOutcome::Failed(e)) => {
            let m = e.message();
            notes.push(provider_note("chatgpt2api", m.as_str()));
            assert(views(notes@) =~= seq!["chatgpt2api"@ + ": "@ + error_message_spec(e)]);
            PrimaryState { answer: None, sources: Vec::new(), usable: false, notes }
        }
        Some(ChatOutcome::TimedOut) => {
            notes.push("chatgpt2api: request deadline reached".to_owned());
            assert(views(notes@) =~= seq!["chatgpt2api: request deadline reached"@]);
            PrimaryState { answer: None, sources: Vec::new(), usable: false, notes }
        }
        None => PrimaryState { answer: None, sources: Vec::new(), usable: false, notes },
    }
}

/// How many sources a selected source provider is asked for: the request's
/// `extra_sources`, else the configured fallback count.
pub fn selected_source_count(plan: &SearchPlan, config: &Config) -> (n: usize)
    ensures
        n == match plan.extra_sources {
            Some(e) => e,
            None => config.fallback_sources,
        },
{
    match plan.extra_sources {
        Some(e) => e,
        None => config.fallback_sources,
    }
}

/// How many supplemental sources an automatic search asks for after a usable answer: the
/// request's `extra_sources`, else the configured default.
pub fn requested_extra_sources(plan: &SearchPlan, config: &Config) -> (n: usize)
    ensures
        n == match plan.extra_sources {
            Some(e) => e,
            None => config.default_extra_sources,
        },
{
    match plan.extra_sources {
        Some(e) => e,
        None => config.default_extra_sources,
    }
}

/// How many sources the chain of source providers is asked for.
pub fn chain_source_count(usable: bool, requested_extra: usize, fallback_sources: usize) -> (n: usize)
    ensures
        n == if usable { requested_extra } else { fallback_sources },
{
    if usable { requested_extra } else { fallback_sources }
}

/// What the chain of source providers found.
pub struct ChainResult {
    pub sources: Vec<Source>,
    pub provider: Option<String>,
    pub notes: Vec<String>,
}

/// What a step of the chain decided.
pub enum ChainStep {
    /// A provider found sources; the chain ends.
    Done(Vec<Source>),
    /// Try the next provider.
    Next,
    /// The deadline passed; the chain ends without sources.
    Stop,
}

/// Whether the chain skips a provider because it cannot enforce the filters; a skipped
/// provider leaves a note.
pub fn chain_skip(notes: &mut Vec<String>, name: &str, supports_filters: bool, filters: &SearchFilters) -> (skip: bool)
    ensures
        skip == (!filters.is_empty_spec() && !supports_filters),
        views(final(notes)@) == if skip {
            views(old(notes)@).push(name@ + " skipped because it cannot enforce domain or recency filters"@)
        } else {
            views(old(notes)@)
        },
{
    if !filters.is_empty() && !supports_filters {
        let mut n = name.to_owned();
        push_str(&mut n, " skipped because it cannot enforce domain or recency filters");
        let ghost before = views(notes@);
        notes.push(n);
        assert(views(notes@) =~= before.push(n@));
        true
    } else {
        false
    }
}

/// What the chain does with a provider's outcome: stop with its distinct sources (at most
/// `max_results`), go on to the next provider, or stop at the deadline. Each outcome that
/// does not end the chain with sources leaves a note.
pub fn chain_step(notes: &mut Vec<String>, name: &str, outcome: SourceOutcome, max_results: usize) -> (r: ChainStep)
    ensures
        match outcome {
            SourceOutcome::Found(found) => {
                let kept = take_at_most(dedup_sources(source_views(found@)), max_results as nat);
                if kept.len() > 0 {
                    r matches ChainStep::Done(s) && source_views(s@) == kept && views(final(notes)@) == views(old(notes)@)
                } else {
                    r is Next && views(final(notes)@) == views(old(notes)@).push(name@ + " returned no sources"@)
                }
            },
            SourceOutcome::Failed(e) => r is Next && views(final(notes)@) == views(old(notes)@).push(
                name@ + ": "@ + error_message_spec(e),
            ),
            SourceOutcome::TimedOut => r is Stop && views(final(notes)@) == views(old(notes)@).push(
                name@ + ": "@ + "request deadline reached"@,
            ),
        },
{
    let ghost before = views(notes@);
    match outcome {
        SourceOutcome::Found(found) => {
            let kept = dedup_and_cut(found, max_results);
            if kept.len() > 0 {
                assert(views(notes@) == before);
                assert(source_views(kept@).len() > 0);
                ChainStep::Done(kept)
            } else {
                let n = no_sources_note(name);
                notes.push(n);
                assert(views(notes@) =~= before.push(n@));
                ChainStep::Next
            }
        }
        SourceOutcome::Failed(e) => {
            let m = e.message();
            let n = provider_note(name, m.as_str());
            notes.push(n);
            assert(views(notes@) =~= before.push(n@));
            ChainStep::Next
        }
        SourceOutcome::TimedOut => {
            let n = provider_note(name, "request deadline reached");
            notes.push(n);
            assert(views(notes@) =~= before.push(n@));
            ChainStep::Stop
        }
    }
}

/// The detail of a failed automatic search: the notes joined and redacted, or a fixed text.
pub open spec fn failure_detail(config: Config, notes: Seq<Seq<char>>) -> Seq<char> {
    if notes.len() == 0 {
        "no usable sources"@
    } else {
        redact_all(join_spec(notes, "; "@), config.secrets_spec())
    }
}

/// Combines the ChatGPT2API step and the chain: ChatGPT2API leads when it was usable and the
/// chain supplements it; else the chain's provider leads. Fails when neither found anything.
pub fn combine_route(config: &Config, chat_configured: bool, primary: PrimaryState, chain: ChainResult) -> (r: Result<RouteResult, HybridSearchError>)
    ensures
        ({
            let notes = views(primary.notes@) + views(chain.notes@);
            if !primary.usable && chain.sources@.len() == 0 {
                r matches Err(HybridSearchError::Provider(m))
                    && m@ == "all configured search providers failed: "@ + failure_detail(*config, notes)
            } else {
                r matches Ok(rr) && {
                    &&& rr.answer == primary.answer
                    &&& source_views(rr.sources@) == dedup_sources(source_views(primary.sources@ + chain.sources@))
                    &&& rr.search_provider@ == if primary.usable {
                        "chatgpt2api"@
                    } else {
                        match chain.provider {
                            Some(p) => p@,
                            None => "source_chain"@,
                        }
                    }
                    &&& rr.supplemental_provider == if primary.usable { chain.provider } else { None }
                    &&& rr.fallback_used == (chat_configured && !primary.usable)
                }
            }
        }),
{
    let mut notes = primary.notes;
    let mut chain_notes = chain.notes;
    let ghost joined = views(notes@) + views(chain_notes@);
    notes.append(&mut chain_notes);
    assert(views(notes@) =~= joined);
    if !primary.usable && chain.sources.len() == 0 {
        let detail = if notes.len() == 0 {
            "no usable sources".to_owned()
        } else {
            let j = join_strings(&notes, "; ");
            config.redact_text(j.as_str())
        };
        let mut m = String::new();
        push_str(&mut m, "all configured search providers failed: ");
        push_str(&mut m, detail.as_str());
        return Err(HybridSearchError::Provider(m));
    }
    let search_provider = if primary.usable {
        "chatgpt2api".to_owned()
    } else {
        match &chain.provider {
            Some(p) => p.clone(),
            None => "source_chain".to_owned(),
        }
    };
    let supplemental_provider = if primary.usable { chain.provider } else { None };
    let sources = merge_sources(primary.sources, chain.sources);
    Ok(RouteResult {
        answer: primary.answer,
        sources,
        search_provider,
        supplemental_provider,
        fallback_used: chat_configured && !primary.usable,
    })
}

// ---------------------------------------------------------------------------
// Finishing a search
// ---------------------------------------------------------------------------

pub open spec fn search_hint_spec(sid: Seq<char>) -> Seq<char> {
    "The response was trimmed to fit the configured budget. Use get_sources(session_id=\""@ + sid
        + "\") for the cached source list or web_fetch(url) for full page content."@
}

/// Caches the complete sources under `session_id` and builds the response, trimmed to
/// `budget`.
pub fn finish_search(
    cache: &mut SourceCache,
    session_id: String,
    route: RouteResult,
    budget: usize,
) -> (o: WebSearchOutput)
    requires
        old(cache).wf(),
    ensures
        final(cache).wf(),
        final(cache).capacity_spec() == old(cache).capacity_spec(),
        exists|v: CachedSources|
            source_views(v@) == source_views(route.sources@) && final(cache)@ == insert_spec(
                old(cache)@,
                old(cache).capacity_spec(),
                session_id@,
                v,
            ),
        ({
            let answer_chars = match route.answer {
                Some(a) => a@.len(),
                None => 0,
            };
            &&& o.session_id@ == session_id@
            &&& o.answer == route.answer
            &&& o.sources_count == route.sources@.len()
            &&& source_views(o.sources@) == budget_spec(answer_chars, source_views(route.sources@), budget as nat, session_id@, 0)
            &&& o.search_provider == route.search_provider
            &&& o.supplemental_provider == route.supplemental_provider
            &&& o.fallback_used == route.fallback_used
            &&& o.truncated == (response_total(answer_chars, source_views(route.sources@)) > budget)
            &&& match o.recovery_hint {
                Some(h) => o.truncated && h@ == search_hint_spec(session_id@),
                None => !o.truncated,
            }
        }),
{
    let RouteResult { answer, sources, search_provider, supplemental_provider, fallback_used } = route;
    let sources_count = sources.len();
    let mut response_sources = copy_sources(&sources, 0, sources_count);
    assert(source_views(sources@).subrange(0, sources@.len() as int) == source_views(sources@));
    let full: CachedSources = Arc::new(sources);
    cache.insert(session_id.clone(), full);
    let truncated = match &answer {
        Some(a) => apply_response_budget(Some(a.as_str()), &mut response_sources, budget, session_id.as_str(), 0),
        None => apply_response_budget(None, &mut response_sources, budget, session_id.as_str(), 0),
    };
    let recovery_hint = if truncated {
        let mut h = String::new();
        push_str(&mut h, "The response was trimmed to fit the configured budget. Use get_sources(session_id=\"");
        push_str(&mut h, session_id.as_str());
        push_str(&mut h, "\") for the cached source list or web_fetch(url) for full page content.");
        Some(h)
    } else {
        None
    };
    WebSearchOutput {
        session_id,
        answer,
        sources_count,
        sources: response_sources,
        search_provider,
        supplemental_provider,
        fallback_used,
        truncated,
        recovery_hint,
    }
}

/// The URL of a source to enrich with its page, when it parses; any scheme is tried.
pub fn enrich_url(url: &str) -> (r: Option<UrlParts>)
    ensures
        match url_parts(url@) {
            Ok(p) => r matches Some(u) && parts_view(u) == p,
            Err(_) => r is None,
        },
{
    match parse_url(url) {
        Ok(p) => Some(p),
        Err(_) => None,
    }
}

/// How many of the first sources get their page inline: none when the request does not
/// want content, else the configured number, at most all of them.
pub fn enrich_count(plan: &SearchPlan, config: &Config, sources_len: usize) -> (n: usize)
    ensures
        n == if !plan.include_content {
            0
        } else if config.max_inline_sources <= sources_len {
            config.max_inline_sources
        } else {
            sources_len
        },
{
    if !plan.include_content {
        0
    } else if config.max_inline_sources <= sources_len {
        config.max_inline_sources
    } else {
        sources_len
    }
}

/// Puts fetched page text into the first `limit` sources: `pages[i]`, when present and
/// `i < limit`, becomes the content of source `i`, cut to `max_chars` characters; every
/// other source stays as it was.
pub fn enrich_with(sources: Vec<Source>, pages: Vec<Option<String>>, limit: usize, max_chars: usize) -> (r: Vec<Source>)
    ensures
        r@.len() == sources@.len(),
        forall|i: int|
            0 <= i < sources@.len() ==> #[trigger] r@[i]@ == if i < limit && i < pages@.len() && pages@[i] is Some {
                SourceView {
                    content: Some(truncate_spec(pages@[i]->Some_0@, Some(max_chars)).0),
                    ..sources@[i]@
                }
            } else {
                sources@[i]@
            },
{
    let ghost orig = sources@;
    let mut out: Vec<Source> = Vec::new();
    for s in it: sources.into_iter()
        invariant
            orig == it.seq(),
            out@.len() == it.index(),
            forall|k: int|
                0 <= k < it.index() ==> #[trigger] out@[k]@ == if k < limit && k < pages@.len() && pages@[k] is Some {
                    SourceView {
                        content: Some(truncate_spec(pages@[k]->Some_0@, Some(max_chars)).0),
                        ..orig[k]@
                    }
                } else {
                    orig[k]@
                },
    {
        let i = out.len();
        let mut s = s;
        if i < limit && i < pages.len() {
            if let Some(text) = &pages[i] {
                let (content, _) = truncate_text(text.clone(), Some(max_chars));
                s.content = Some(content);
            }
        }
        out.push(s);
    }
    out
}

// ---------------------------------------------------------------------------
// Fetching a page
// ---------------------------------------------------------------------------

/// Checks a URL to fetch: it must parse and use `http` or `https`.
pub fn plan_fetch(url: &str) -> (r: Result<UrlParts, HybridSearchError>)
    ensures
        match url_parts(url@) {
            Ok(p) => if p.0 == "http"@ || p.0 == "https"@ {
                r matches Ok(u) && parts_view(u) == p
            } else {
                r matches Err(HybridSearchError::InvalidParams(m)) && m@ == "web_fetch.url must use http or https"@
            },
            Err(e) => r matches Err(HybridSearchError::InvalidParams(m)) && m@ == "invalid URL: "@ + e,
        },
{
    match parse_url(url) {
        Ok(p) => {
            if str_eq(p.scheme.as_str(), "http") || str_eq(p.scheme.as_str(), "https") {
                Ok(p)
            } else {
                Err(HybridSearchError::InvalidParams("web_fetch.url must use http or https".to_owned()))
            }
        }
        Err(e) => {
            let mut m = String::new();
            push_str(&mut m, "invalid URL: ");
            push_str(&mut m, e.as_str());
            Err(HybridSearchError::InvalidParams(m))
        }
    }
}

/// What a specialist extractor came to.
pub enum SpecialistOutcome {
    Page(String, String),
    NotApplicable,
    Failed(HybridSearchError),
    TimedOut,
}

/// What `web_fetch` does after the specialist step.
pub enum SpecialistDecision {
    /// Use the specialist page, with its source type.
    Use(FetchedPage, String),
    /// Fall back to the generic providers, with the reason a specialist failed, if one did.
    Generic(Option<String>),
    /// Give up.
    Fail(HybridSearchError),
}

/// The decision after the specialist step: its page, the generic providers (recording a
/// specialist failure), or a timeout.
pub fn after_specialist(outcome: SpecialistOutcome) -> (r: SpecialistDecision)
    ensures
        match outcome {
            SpecialistOutcome::Page(content, kind) => r matches SpecialistDecision::Use(p, k)
                && p.content == content && p.title.is_none() && p.published_date.is_none() && k == kind,
            SpecialistOutcome::NotApplicable => r matches SpecialistDecision::Generic(None),
            SpecialistOutcome::Failed(e) => r matches SpecialistDecision::Generic(Some(m)) && m@ == error_message_spec(e),
            SpecialistOutcome::TimedOut => r matches SpecialistDecision::Fail(HybridSearchError::Timeout(m))
                && m@ == "specialist content extraction"@,
        },
{
    match outcome {
        SpecialistOutcome::Page(content, kind) => SpecialistDecision::Use(
            FetchedPage { content, title: None, published_date: None },
            kind,
        ),
        SpecialistOutcome::NotApplicable => SpecialistDecision::Generic(None),
        SpecialistOutcome::Failed(e) => SpecialistDecision::Generic(Some(e.message())),
        SpecialistOutcome::TimedOut => SpecialistDecision::Fail(
            HybridSearchError::Timeout("specialist content extraction".to_owned()),
        ),
    }
}

/// What a generic fetch provider came to.
pub enum FetchOutcome {
    Fetched(FetchedPage),
    Failed(HybridSearchError),
    TimedOut,
}

/// What the generic fetch chain does with an outcome.
pub enum FetchStep {
    Done(FetchedPage),
    Next,
    Stop,
}

/// A page with text ends the chain; empty text, a failure or the deadline leave a note,
/// and the deadline stops the chain.
pub fn fetch_step(notes: &mut Vec<String>, name: &str, outcome: FetchOutcome) -> (r: FetchStep)
    ensures
        match outcome {
            FetchOutcome::Fetched(p) => if trim_spec(p.content@).len() > 0 {
                r matches FetchStep::Done(q) && q == p && views(final(notes)@) == views(old(notes)@)
            } else {
                r is Next && views(final(notes)@) == views(old(notes)@).push(name@ + " returned empty content"@)
            },
            FetchOutcome::Failed(e) => r is Next && views(final(notes)@) == views(old(notes)@).push(
                name@ + ": "@ + error_message_spec(e),
            ),
            FetchOutcome::TimedOut => r is Stop && views(final(notes)@) == views(old(notes)@).push(
                name@ + ": "@ + "request deadline reached"@,
            ),
        },
{
    let ghost before = views(notes@);
    match outcome {
        FetchOutcome::Fetched(p) => {
            if !is_blank(p.content.as_str()) {
                assert(views(notes@) == before);
                FetchStep::Done(p)
            } else {
                let mut n = name.to_owned();
                push_str(&mut n, " returned empty content");
                notes.push(n);
                assert(views(notes@) =~= before.push(n@));
                FetchStep::Next
            }
        }
        FetchOutcome::Failed(e) => {
            let m = e.message();
            let n = provider_note(name, m.as_str());
            notes.push(n);
            assert(views(notes@) =~= before.push(n@));
            FetchStep::Next
        }
        FetchOutcome::TimedOut => {
            let n = provider_note(name, "request deadline reached");
            notes.push(n);
            assert(views(notes@) =~= before.push(n@));
            FetchStep::Stop
        }
    }
}

/// The failure after every generic fetch provider was tried.
pub fn fetch_chain_failed(notes: &Vec<String>) -> (e: HybridSearchError)
    ensures
        e matches HybridSearchError::Provider(m) && m@ == "all configured fetch providers failed: "@ + join_spec(views(notes@), "; "@),
{
    let j = join_strings(notes, "; ");
    let mut m = String::new();
    push_str(&mut m, "all configured fetch providers failed: ");
    push_str(&mut m, j.as_str());
    HybridSearchError::Provider(m)
}

/// The answer of `web_fetch`: the page cut to `max_chars`, or to the configured default.
pub fn finish_fetch(
    url: String,
    page: FetchedPage,
    source_type: String,
    fallback_reason: Option<String>,
    max_chars: Option<usize>,
    default_max_chars: Option<usize>,
) -> (o: WebFetchOutput)
    ensures
        ({
            let limit = match max_chars {
                Some(m) => Some(m),
                None => default_max_chars,
            };
            let (content, truncated) = truncate_spec(page.content@, limit);
            &&& o.url == url
            &&& o.content@ == content
            &&& o.truncated == truncated
            &&& o.original_length == page.content@.len()
            &&& o.title == page.title
            &&& o.published_date == page.published_date
            &&& o.source_type == source_type
            &&& o.fallback_reason == fallback_reason
            &&& match o.recovery_hint {
                Some(h) => truncated && h@ == "Call web_fetch again with a larger max_chars value, or omit max_chars when no HYBRID_SEARCH_FETCH_MAX_CHARS default is configured."@,
                None => !truncated,
            }
        }),
{
    let original_length = chars_of(page.content.as_str()).len();
    let limit = match max_chars {
        Some(m) => Some(m),
        None => default_max_chars,
    };
    let (content, truncated) = truncate_text(page.content, limit);
    let recovery_hint = if truncated {
        Some("Call web_fetch again with a larger max_chars value, or omit max_chars when no HYBRID_SEARCH_FETCH_MAX_CHARS default is configured.".to_owned())
    } else {
        None
    };
    WebFetchOutput {
        url,
        content,
        title: page.title,
        published_date: page.published_date,
        original_length,
        truncated,
        source_type,
        fallback_reason,
        recovery_hint,
    }
}

/// Checks a `web_map` request: Tavily must be enabled and configured; at least one result
/// is asked for.
pub fn plan_map(config: &Config, tavily_available: bool, max_results: usize) -> (r: Result<usize, HybridSearchError>)
    ensures
        if !views(config.source_providers@).contains("tavily"@) {
            r matches Err(HybridSearchError::InvalidParams(m)) && m@ == "Tavily is disabled by HYBRID_SEARCH_SOURCE_PROVIDERS"@
        } else if !tavily_available {
            r matches Err(HybridSearchError::MissingConfig(m)) && m@ == "TAVILY_API_KEY"@
        } else {
            r == Ok::<usize, HybridSearchError>(if max_results >= 1 { max_results } else { 1 })
        },
{
    if !config.source_provider_enabled("tavily") {
        return Err(HybridSearchError::InvalidParams("Tavily is disabled by HYBRID_SEARCH_SOURCE_PROVIDERS".to_owned()));
    }
    if !tavily_available {
        return Err(HybridSearchError::MissingConfig("TAVILY_API_KEY".to_owned()));
    }
    Ok(if max_results >= 1 { max_results } else { 1 })
}

} // verus!
