use vstd::prelude::*;

use crate::text::{chars_eq, chars_of, is_blank, trim_bounds, slice_chars, trim_spec};

verus! {

/// Domain and recency constraints on a search.
pub struct SearchFilters {
    pub recency_days: Option<u32>,
    pub include_domains: Vec<String>,
    pub exclude_domains: Vec<String>,
}

impl SearchFilters {
    pub open spec fn is_empty_spec(&self) -> bool {
        &&& self.recency_days.is_none()
        &&& self.include_domains@.len() == 0
        &&& self.exclude_domains@.len() == 0
    }

    /// Filters that constrain nothing.
    pub fn none() -> (f: SearchFilters)
        ensures
            f.is_empty_spec(),
    {
        SearchFilters { recency_days: None, include_domains: Vec::new(), exclude_domains: Vec::new() }
    }

    /// Whether the filters constrain nothing.
    pub fn is_empty(&self) -> (r: bool)
        ensures
            r == self.is_empty_spec(),
    {
        self.recency_days.is_none() && self.include_domains.len() == 0
            && self.exclude_domains.len() == 0
    }
}

/// One search result or cached page reference.
pub struct Source {
    pub url: String,
    pub provider: String,
    pub title: Option<String>,
    pub description: Option<String>,
    pub published_date: Option<String>,
    pub content: Option<String>,
}

/// The plain-value picture of a source.
pub struct SourceView {
    pub url: Seq<char>,
    pub provider: Seq<char>,
    pub title: Option<Seq<char>>,
    pub description: Option<Seq<char>>,
    pub published_date: Option<Seq<char>>,
    pub content: Option<Seq<char>>,
}

pub open spec fn opt_view(o: Option<String>) -> Option<Seq<char>> {
    match o {
        Some(s) => Some(s@),
        None => None,
    }
}

impl View for Source {
    type V = SourceView;

    open spec fn view(&self) -> SourceView {
        SourceView {
            url: self.url@,
            provider: self.provider@,
            title: opt_view(self.title),
            description: opt_view(self.description),
            published_date: opt_view(self.published_date),
            content: opt_view(self.content),
        }
    }
}

/// The value that `with_title` and its kin keep: only text that is not blank.
pub open spec fn kept_text(old: Option<Seq<char>>, value: Seq<char>) -> Option<Seq<char>> {
    if trim_spec(value).len() == 0 {
        old
    } else {
        Some(value)
    }
}

impl Source {
    /// A source with only a URL and a provider name.
    pub fn new(url: String, provider: String) -> (s: Source)
        ensures
            s@ == (SourceView {
                url: url@,
                provider: provider@,
                title: None,
                description: None,
                published_date: None,
                content: None,
            }),
    {
        Source { url, provider, title: None, description: None, published_date: None, content: None }
    }

    /// Sets the title unless `value` is blank.
    pub fn with_title(self, value: String) -> (s: Source)
        ensures
            s@ == (SourceView { title: kept_text(self@.title, value@), ..self@ }),
    {
        let mut s = self;
        if !is_blank(value.as_str()) {
            s.title = Some(value);
        }
        s
    }

    /// Sets the description unless `value` is blank.
    pub fn with_description(self, value: String) -> (s: Source)
        ensures
            s@ == (SourceView { description: kept_text(self@.description, value@), ..self@ }),
    {
        let mut s = self;
        if !is_blank(value.as_str()) {
            s.description = Some(value);
        }
        s
    }

    /// Sets the publication date unless `value` is blank.
    pub fn with_published_date(self, value: String) -> (s: Source)
        ensures
            s@ == (SourceView { published_date: kept_text(self@.published_date, value@), ..self@ }),
    {
        let mut s = self;
        if !is_blank(value.as_str()) {
            s.published_date = Some(value);
        }
        s
    }
}

pub open spec fn source_views(v: Seq<Source>) -> Seq<SourceView> {
    v.map_values(|s: Source| s@)
}

/// The trimmed URLs of a list of sources.
pub open spec fn trimmed_urls(r: Seq<SourceView>) -> Seq<Seq<char>> {
    r.map_values(|x: SourceView| trim_spec(x.url))
}

/// Keeps, in order, each source whose trimmed URL is not blank and was not kept before.
pub open spec fn dedup_sources(s: Seq<SourceView>) -> Seq<SourceView>
    decreases s.len(),
{
    if s.len() == 0 {
        seq![]
    } else {
        let r = dedup_sources(s.drop_last());
        let u = trim_spec(s.last().url);
        if u.len() > 0 && !trimmed_urls(r).contains(u) {
            r.push(s.last())
        } else {
            r
        }
    }
}

/// Every source kept by `dedup_sources` has a URL that is not blank once trimmed, and no
/// two kept sources share a trimmed URL; each kept source comes from the input.
pub proof fn law_dedup_unique(s: Seq<SourceView>)
    ensures
        forall|i: int| 0 <= i < dedup_sources(s).len() ==> trim_spec(#[trigger] dedup_sources(s)[i].url).len() > 0,
        forall|i: int, j: int| 0 <= i < j < dedup_sources(s).len()
            ==> trim_spec(#[trigger] dedup_sources(s)[i].url) != trim_spec(#[trigger] dedup_sources(s)[j].url),
        forall|i: int| 0 <= i < dedup_sources(s).len() ==> s.contains(#[trigger] dedup_sources(s)[i]),
    decreases s.len(),
{
    if s.len() > 0 {
        let r = dedup_sources(s.drop_last());
        law_dedup_unique(s.drop_last());
        let u = trim_spec(s.last().url);
        assert forall|i: int| 0 <= i < r.len() implies s.contains(#[trigger] r[i]) by {
            assert(s.drop_last().contains(r[i]));
            let k = choose|k: int| 0 <= k < s.drop_last().len() && s.drop_last()[k] == r[i];
            assert(s[k] == r[i]);
        }
        if u.len() > 0 && !trimmed_urls(r).contains(u) {
            let d = r.push(s.last());
            assert(d == dedup_sources(s));
            assert forall|i: int| 0 <= i < r.len() implies trim_spec(#[trigger] r[i].url) != u by {
                assert(trimmed_urls(r)[i] == trim_spec(r[i].url));
            }
            assert(s.contains(s.last())) by {
                assert(s[s.len() - 1] == s.last());
            }
            assert forall|i: int, j: int| 0 <= i < j < d.len() implies trim_spec(#[trigger] d[i].url) != trim_spec(#[trigger] d[j].url) by {
                if j == d.len() - 1 {
                    assert(d[i] == r[i]);
                }
            }
        }
    }
}

/// The merge drops a source only when its trimmed URL is blank or was already kept: a
/// source whose trimmed URL is not blank and differs from that of every earlier source is
/// kept, and every trimmed URL that is not blank appears among the kept ones.
pub proof fn law_dedup_keeps_new_urls(s: Seq<SourceView>)
    ensures
        forall|i: int|
            0 <= i < s.len() && trim_spec(s[i].url).len() > 0
                && (forall|j: int| 0 <= j < i ==> trim_spec(#[trigger] s[j].url) != trim_spec(s[i].url))
                ==> dedup_sources(s).contains(#[trigger] s[i]),
        forall|i: int|
            0 <= i < s.len() && trim_spec(#[trigger] s[i].url).len() > 0
                ==> trimmed_urls(dedup_sources(s)).contains(trim_spec(s[i].url)),
    decreases s.len(),
{
    if s.len() > 0 {
        let p = s.drop_last();
        let r = dedup_sources(p);
        law_dedup_keeps_new_urls(p);
        law_dedup_unique(p);
        let d = dedup_sources(s);
        let u = trim_spec(s.last().url);
        // what r holds, d holds too
        assert forall|x: SourceView| r.contains(x) implies d.contains(x) by {
            let k = choose|k: int| 0 <= k < r.len() && r[k] == x;
            if u.len() > 0 && !trimmed_urls(r).contains(u) {
                assert(d[k] == r[k]);
            }
        }
        assert forall|v: Seq<char>| trimmed_urls(r).contains(v) implies trimmed_urls(d).contains(v) by {
            let k = choose|k: int| 0 <= k < trimmed_urls(r).len() && trimmed_urls(r)[k] == v;
            if u.len() > 0 && !trimmed_urls(r).contains(u) {
                assert(trimmed_urls(d)[k] == trimmed_urls(r)[k]);
            }
        }
        if u.len() > 0 && !trimmed_urls(r).contains(u) {
            assert(d[d.len() - 1] == s.last());
            assert(trimmed_urls(d)[d.len() - 1] == u);
        }
        assert forall|i: int|
            0 <= i < s.len() && trim_spec(s[i].url).len() > 0
                && (forall|j: int| 0 <= j < i ==> trim_spec(#[trigger] s[j].url) != trim_spec(s[i].url))
                implies d.contains(#[trigger] s[i]) by {
            if i < s.len() - 1 {
                assert(p[i] == s[i]);
                assert forall|j: int| 0 <= j < i implies trim_spec(#[trigger] p[j].url) != trim_spec(p[i].url) by {
                    assert(p[j] == s[j]);
                }
                assert(r.contains(p[i]));
            } else {
                assert(s[i] == s.last());
                if trimmed_urls(r).contains(u) {
                    let k = choose|k: int| 0 <= k < trimmed_urls(r).len() && trimmed_urls(r)[k] == u;
                    assert(trimmed_urls(r)[k] == trim_spec(r[k].url));
                    assert(p.contains(r[k]));
                    let j = choose|j: int| 0 <= j < p.len() && p[j] == r[k];
                    assert(s[j] == p[j]);
                    assert(trim_spec(s[j].url) != trim_spec(s[i].url));
                }
            }
        }
        assert forall|i: int|
            0 <= i < s.len() && trim_spec(#[trigger] s[i].url).len() > 0
                implies trimmed_urls(d).contains(trim_spec(s[i].url)) by {
            if i < s.len() - 1 {
                assert(p[i] == s[i]);
                assert(trimmed_urls(r).contains(trim_spec(p[i].url)));
            } else {
                assert(s[i] == s.last());
            }
        }
    }
}

/// Whether `u` is among `seen`.
fn seen_contains(seen: &Vec<Vec<char>>, u: &Vec<char>) -> (r: bool)
    ensures
        r == seen@.map_values(|v: Vec<char>| v@).contains(u@),
{
    let ghost views = seen@.map_values(|v: Vec<char>| v@);
    let mut i: usize = 0;
    while i < seen.len()
        invariant
            i <= seen.len(),
            views == seen@.map_values(|v: Vec<char>| v@),
            forall|j: int| 0 <= j < i ==> views[j] != u@,
        decreases seen.len() - i,
    {
        if chars_eq(&seen[i], u) {
            assert(views[i as int] == u@);
            return true;
        }
        i += 1;
    }
    proof {
        if views.contains(u@) {
            let j = choose|j: int| 0 <= j < views.len() && views[j] == u@;
            assert(views[j] != u@);
        }
    }
    false
}

/// Joins two source lists, keeping the first source for each trimmed URL and dropping
/// sources whose URL is blank.
pub fn merge_sources(primary: Vec<Source>, secondary: Vec<Source>) -> (out: Vec<Source>)
    ensures
        source_views(out@) == dedup_sources(source_views(primary@ + secondary@)),
{
    let mut all = primary;
    let mut rest = secondary;
    let ghost joined = all@ + rest@;
    all.append(&mut rest);
    assert(all@ == joined);
    let ghost input = source_views(all@);
    let mut out: Vec<Source> = Vec::new();
    let mut seen: Vec<Vec<char>> = Vec::new();
    for source in it: all.into_iter()
        invariant
            input == source_views(it.seq()),
            source_views(out@) == dedup_sources(input.take(it.index() as int)),
            seen@.map_values(|v: Vec<char>| v@) == trimmed_urls(source_views(out@)),
    {
        let ghost before = input.take(it.index() as int);
        assert(input.take(it.index() + 1).drop_last() == before);
        assert(input.take(it.index() + 1).last() == source@);
        let url = chars_of(source.url.as_str());
        let (start, end) = trim_bounds(&url);
        let trimmed = slice_chars(&url, start, end);
        if start < end && !seen_contains(&seen, &trimmed) {
            proof {
                assert(trimmed_urls(source_views(out@.push(source))) == trimmed_urls(source_views(out@)).push(trimmed@));
            }
            out.push(source);
            seen.push(trimmed);
            assert(seen@.map_values(|v: Vec<char>| v@) == trimmed_urls(source_views(out@)));
        }
        assert(source_views(out@) == dedup_sources(input.take(it.index() + 1)));
    }
    assert(input.take(input.len() as int) == input);
    out
}

/// A page extracted by a provider.
pub struct FetchedPage {
    pub content: String,
    pub title: Option<String>,
    pub published_date: Option<String>,
}

/// How much of each source a search response carries.
#[derive(PartialEq, Eq, Structural, Clone, Copy)]
pub enum ResponseFormat {
    Concise,
    Detailed,
}

impl ResponseFormat {
    /// The format used when none is requested.
    pub fn default_format() -> (f: ResponseFormat)
        ensures
            f == ResponseFormat::Detailed,
    {
        ResponseFormat::Detailed
    }
}

/// A provider that a request may select.
#[derive(PartialEq, Eq, Structural, Clone, Copy)]
pub enum SearchProvider {
    Chatgpt2api,
    Tavily,
    Firecrawl,
    Tinyfish,
    Exa,
}

pub open spec fn provider_name_spec(p: SearchProvider) -> Seq<char> {
    match p {
        SearchProvider::Chatgpt2api => "chatgpt2api"@,
        SearchProvider::Tavily => "tavily"@,
        SearchProvider::Firecrawl => "firecrawl"@,
        SearchProvider::Tinyfish => "tinyfish"@,
        SearchProvider::Exa => "exa"@,
    }
}

impl SearchProvider {
    /// The provider's lowercase name.
    pub fn as_str(self) -> (s: &'static str)
        ensures
            s@ == provider_name_spec(self),
    {
        match self {
            SearchProvider::Chatgpt2api => "chatgpt2api",
            SearchProvider::Tavily => "tavily",
            SearchProvider::Firecrawl => "firecrawl",
            SearchProvider::Tinyfish => "tinyfish",
            SearchProvider::Exa => "exa",
        }
    }
}

/// The request of the `web_search` tool.
pub struct WebSearchInput {
    pub query: String,
    pub provider: Option<SearchProvider>,
    pub extra_sources: Option<usize>,
    pub include_content: Option<bool>,
    pub response_format: Option<ResponseFormat>,
    pub recency_days: Option<u32>,
    pub include_domains: Vec<String>,
    pub exclude_domains: Vec<String>,
}

/// The answer of the `web_search` tool.
pub struct WebSearchOutput {
    pub session_id: String,
    pub answer: Option<String>,
    pub sources_count: usize,
    pub sources: Vec<Source>,
    pub search_provider: String,
    pub supplemental_provider: Option<String>,
    pub fallback_used: bool,
    pub truncated: bool,
    pub recovery_hint: Option<String>,
}

/// The request of the `get_sources` tool.
pub struct GetSourcesInput {
    pub session_id: String,
    pub offset: Option<usize>,
    pub limit: Option<usize>,
}

/// The answer of the `get_sources` tool.
pub struct GetSourcesOutput {
    pub session_id: String,
    pub sources_count: usize,
    pub sources: Vec<Source>,
    pub total_sources: usize,
    pub offset: usize,
    pub next_offset: Option<usize>,
    pub truncated: bool,
    pub recovery_hint: Option<String>,
}

/// The request of the `web_fetch` tool.
pub struct WebFetchInput {
    pub url: String,
    pub max_chars: Option<usize>,
}

/// The answer of the `web_fetch` tool.
pub struct WebFetchOutput {
    pub url: String,
    pub content: String,
    pub title: Option<String>,
    pub published_date: Option<String>,
    pub original_length: usize,
    pub truncated: bool,
    pub source_type: String,
    pub fallback_reason: Option<String>,
    pub recovery_hint: Option<String>,
}

/// The request of the `web_map` tool.
pub struct WebMapInput {
    pub url: String,
    pub max_results: Option<usize>,
}

/// The answer of the `web_map` tool.
pub struct WebMapOutput {
    pub sources_count: usize,
    pub sources: Vec<Source>,
}

/// The state of one provider, as `doctor` reports it.
pub struct ProviderHealth {
    pub provider: String,
    pub enabled: bool,
    pub configured: bool,
    pub endpoints: Vec<String>,
    pub credential: String,
    pub reachable: bool,
    pub status: String,
    pub detail: String,
}

/// The answer of the `doctor` tool.
pub struct DoctorOutput {
    pub status: String,
    pub configuration_source: String,
    pub provider_order: Vec<String>,
    pub source_provider_order: Vec<String>,
    pub providers: Vec<ProviderHealth>,
    pub github_token_configured: bool,
    pub timeout_seconds: u64,
    pub cache_size: usize,
    pub response_max_chars: usize,
    pub debug_log_path: Option<String>,
}

} // verus!
