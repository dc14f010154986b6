use vstd::prelude::*;

pub mod chatgpt2api;
pub mod exa;
pub mod firecrawl;
pub mod http;
pub mod tavily;
pub mod tinyfish;

use crate::error::HybridSearchError;
use crate::json::{has_shape, json_get, json_items, JsonNumber, JsonShape, JsonValue};
use crate::model::{kept_text, Source, SourceView};
use crate::text::{chars_of, decimal_string, push_str, trim_end_char, trim_end_char_spec, string_from_chars, views};

verus! {

// ---------------------------------------------------------------------------
// The source providers
// ---------------------------------------------------------------------------

/// A provider of search results and page extracts.
pub trait SourceProvider {
    /// The provider's lowercase name.
    fn name(&self) -> &'static str;

    /// Whether the provider honours domain and recency filters.
    fn supports_filters(&self) -> bool;
}

/// The source providers that the service can call.
#[derive(PartialEq, Eq, Structural, Clone, Copy)]
pub enum ProviderKind {
    Tavily,
    Firecrawl,
    Tinyfish,
    Exa,
}

pub open spec fn kind_name(k: ProviderKind) -> Seq<char> {
    match k {
        ProviderKind::Tavily => "tavily"@,
        ProviderKind::Firecrawl => "firecrawl"@,
        ProviderKind::Tinyfish => "tinyfish"@,
        ProviderKind::Exa => "exa"@,
    }
}

/// Each provider has a name of its own, so a name finds its provider back.
pub proof fn law_kind_names_distinct(a: ProviderKind, b: ProviderKind)
    ensures
        kind_name(a) == kind_name(b) ==> a == b,
{
    reveal_strlit("tavily");
    reveal_strlit("firecrawl");
    reveal_strlit("tinyfish");
    reveal_strlit("exa");
    if kind_name(a) == kind_name(b) && a != b {
        let (x, y) = (kind_name(a), kind_name(b));
        assert(x.len() == y.len());
        assert(x[1] == y[1]);
    }
}

impl ProviderKind {
    /// The provider's lowercase name.
    pub fn kind_str(self) -> (s: &'static str)
        ensures
            s@ == kind_name(self),
    {
        match self {
            ProviderKind::Tavily => "tavily",
            ProviderKind::Firecrawl => "firecrawl",
            ProviderKind::Tinyfish => "tinyfish",
            ProviderKind::Exa => "exa",
        }
    }

    /// The provider of a name, if there is one.
    pub fn from_name(name: &str) -> (r: Option<ProviderKind>)
        ensures
            match r {
                Some(k) => kind_name(k) == name@,
                None => forall|k: ProviderKind| kind_name(k) != name@,
            },
    {
        let kinds = [ProviderKind::Tavily, ProviderKind::Firecrawl, ProviderKind::Tinyfish, ProviderKind::Exa];
        let mut i: usize = 0;
        while i < 4
            invariant
                i <= 4,
                kinds@ == seq![ProviderKind::Tavily, ProviderKind::Firecrawl, ProviderKind::Tinyfish, ProviderKind::Exa],
                forall|j: int| 0 <= j < i ==> kind_name(#[trigger] kinds@[j]) != name@,
            decreases 4 - i,
        {
            let k = kinds[i];
            if crate::text::str_eq(k.kind_str(), name) {
                return Some(k);
            }
            i += 1;
        }
        proof {
            assert forall|k: ProviderKind| kind_name(k) != name@ by {
                match k {
                    ProviderKind::Tavily => assert(kinds@[0] == k),
                    ProviderKind::Firecrawl => assert(kinds@[1] == k),
                    ProviderKind::Tinyfish => assert(kinds@[2] == k),
                    ProviderKind::Exa => assert(kinds@[3] == k),
                }
            }
        }
        None
    }

    /// The error of a URL map asked of a provider that cannot map.
    pub fn map_unsupported(self) -> (e: HybridSearchError)
        ensures
            e matches HybridSearchError::Provider(m) && m@ == kind_name(self) + " does not support URL mapping"@,
    {
        let mut m = self.kind_str().to_owned();
        push_str(&mut m, " does not support URL mapping");
        HybridSearchError::Provider(m)
    }
}

impl SourceProvider for ProviderKind {
    fn name(&self) -> (r: &'static str)
        ensures
            r@ == kind_name(*self),
    {
        self.kind_str()
    }

    /// Every provider honours filters but Firecrawl.
    fn supports_filters(&self) -> (r: bool)
        ensures
            r == (*self != ProviderKind::Firecrawl),
    {
        match self {
            ProviderKind::Firecrawl => false,
            _ => true,
        }
    }
}

pub open spec fn kind_names(kinds: Seq<ProviderKind>) -> Seq<Seq<char>> {
    kinds.map_values(|k: ProviderKind| kind_name(k))
}

/// The source providers of `names` that have their credentials, in order.
pub open spec fn active_names(c: crate::config::Config, names: Seq<Seq<char>>) -> Seq<Seq<char>>
    decreases names.len(),
{
    if names.len() == 0 {
        seq![]
    } else {
        let r = active_names(c, names.drop_last());
        let n = names.last();
        if n != "chatgpt2api"@ && c.provider_configured_spec(n) { r.push(n) } else { r }
    }
}

/// The source providers that the service builds: those of the provider order that have
/// their credentials, in that order.
pub fn active_providers(config: &crate::config::Config) -> (r: Vec<ProviderKind>)
    ensures
        kind_names(r@) == active_names(*config, views(config.source_providers@)),
{
    let ghost names = views(config.source_providers@);
    let mut out: Vec<ProviderKind> = Vec::new();
    let mut i: usize = 0;
    while i < config.source_providers.len()
        invariant
            i <= config.source_providers.len(),
            names == views(config.source_providers@),
            kind_names(out@) == active_names(*config, names.subrange(0, i as int)),
        decreases config.source_providers.len() - i,
    {
        assert(names.subrange(0, i + 1).drop_last() == names.subrange(0, i as int));
        assert(names.subrange(0, i + 1).last() == config.source_providers@[i as int]@);
        let name = config.source_providers[i].as_str();
        proof {
            reveal_strlit("chatgpt2api");
        }
        if !crate::text::str_eq(name, "chatgpt2api") && config.provider_configured(name) {
            match ProviderKind::from_name(name) {
                Some(k) => {
                    let ghost before = kind_names(out@);
                    out.push(k);
                    assert(kind_names(out@) =~= before.push(kind_name(k)));
                }
                None => {
                    proof {
                        assert(kind_name(ProviderKind::Tavily) != name@);
                        assert(kind_name(ProviderKind::Firecrawl) != name@);
                        assert(kind_name(ProviderKind::Tinyfish) != name@);
                        assert(kind_name(ProviderKind::Exa) != name@);
                    }
                }
            }
        }
        i += 1;
    }
    assert(names.subrange(0, names.len() as int) == names);
    out
}

// ---------------------------------------------------------------------------
// Endpoints
// ---------------------------------------------------------------------------

/// A provider's API URL without its trailing slashes.
pub fn trim_api_url(url: &str) -> (r: String)
    ensures
        r@ == trim_end_char_spec(url@, '/'),
{
    string_from_chars(&trim_end_char(&chars_of(url), '/'))
}

/// Drops every leading occurrence of `c` (`str::trim_start_matches` with a char).
pub open spec fn trim_start_char_spec(s: Seq<char>, c: char) -> Seq<char>
    decreases s.len(),
{
    if s.len() > 0 && s[0] == c {
        trim_start_char_spec(s.drop_first(), c)
    } else {
        s
    }
}

/// `{base}/{path}`, the path's leading slashes dropped.
pub open spec fn endpoint_spec(base: Seq<char>, path: Seq<char>) -> Seq<char> {
    base + "/"@ + trim_start_char_spec(path, '/')
}

/// The endpoint of a path under a provider's API URL.
pub fn endpoint(base: &str, path: &str) -> (r: String)
    ensures
        r@ == endpoint_spec(base@, path@),
{
    let p = chars_of(path);
    let mut i: usize = 0;
    assert(p@.skip(0) == p@);
    while i < p.len() && p[i] == '/'
        invariant
            i <= p.len(),
            trim_start_char_spec(p@, '/') == trim_start_char_spec(p@.skip(i as int), '/'),
        decreases p.len() - i,
    {
        assert(p@.skip(i as int).drop_first() == p@.skip(i + 1));
        i += 1;
    }
    let rest = crate::text::slice_chars(&p, i, p.len());
    assert(rest@ == p@.skip(i as int));
    let mut r = base.to_owned();
    push_str(&mut r, "/");
    crate::text::push_chars(&mut r, &rest);
    r
}

// ---------------------------------------------------------------------------
// Building sources out of responses
// ---------------------------------------------------------------------------

/// A source with a URL and a provider, and the title, description and date that are not
/// blank.
pub open spec fn built_source(
    url: Seq<char>,
    provider: Seq<char>,
    title: Option<Seq<char>>,
    description: Option<Seq<char>>,
    date: Option<Seq<char>>,
) -> SourceView {
    SourceView {
        url,
        provider,
        title: match title {
            Some(t) => kept_text(None, t),
            None => None,
        },
        description: match description {
            Some(d) => kept_text(None, d),
            None => None,
        },
        published_date: match date {
            Some(d) => kept_text(None, d),
            None => None,
        },
        content: None,
    }
}

/// Builds a source as `Source::new(..).with_title(..).with_description(..)
/// .with_published_date(..)` does, each part given only when present.
pub fn build_source(
    url: String,
    provider: &str,
    title: Option<&String>,
    description: Option<&String>,
    date: Option<&String>,
) -> (s: Source)
    ensures
        s@ == built_source(url@, provider@, crate::json::opt_str_view(title), crate::json::opt_str_view(description),
            crate::json::opt_str_view(date)),
{
    let mut source = Source::new(url, provider.to_owned());
    if let Some(t) = title {
        source = source.with_title(t.clone());
    }
    if let Some(d) = description {
        source = source.with_description(d.clone());
    }
    if let Some(d) = date {
        source = source.with_published_date(d.clone());
    }
    source
}

/// The sources that `f` finds in the items, in order.
pub open spec fn filter_sources(items: Seq<JsonValue>, f: spec_fn(JsonValue) -> Option<SourceView>) -> Seq<SourceView>
    decreases items.len(),
{
    if items.len() == 0 {
        seq![]
    } else {
        let rest = filter_sources(items.drop_last(), f);
        match f(items.last()) {
            Some(s) => rest.push(s),
            None => rest,
        }
    }
}

/// The text a result's string member gives a source: the string when it is not blank.
pub open spec fn nonblank(v: Option<Seq<char>>) -> Option<Seq<char>> {
    match v {
        Some(t) => if crate::text::trim_spec(t).len() > 0 { Some(t) } else { None },
        None => None,
    }
}

/// Every source that `f` finds in an item is among the sources found in the items.
pub proof fn lemma_filter_sources_has(items: Seq<JsonValue>, f: spec_fn(JsonValue) -> Option<SourceView>, i: int)
    requires
        0 <= i < items.len(),
        f(items[i]) is Some,
    ensures
        filter_sources(items, f).contains(f(items[i])->Some_0),
    decreases items.len(),
{
    let rest = filter_sources(items.drop_last(), f);
    if i < items.len() - 1 {
        assert(items.drop_last()[i] == items[i]);
        lemma_filter_sources_has(items.drop_last(), f, i);
        let k = choose|k: int| 0 <= k < rest.len() && rest[k] == f(items[i])->Some_0;
        match f(items.last()) {
            Some(x) => assert(rest.push(x)[k] == rest[k]),
            None => {},
        }
    } else {
        assert(items[i] == items.last());
        let x = f(items.last())->Some_0;
        assert(rest.push(x)[rest.len() as int] == x);
    }
}

/// The first element of the array member `results`.
pub open spec fn first_result(response: JsonValue) -> Option<JsonValue> {
    let items = json_items(json_get(response, "results"@));
    if items.len() > 0 { Some(items[0]) } else { None }
}

/// The first element of the array member `key`.
pub fn first_item<'a>(response: &'a JsonValue, key: &str) -> (r: Option<&'a JsonValue>)
    ensures
        match r {
            Some(x) => json_items(json_get(*response, key@)).len() > 0 && *x == json_items(json_get(*response, key@))[0],
            None => json_items(json_get(*response, key@)).len() == 0,
        },
{
    let items = crate::json::get_items(response, key);
    if items.len() > 0 {
        Some(&items[0])
    } else {
        None
    }
}

/// A JSON number that holds `n`.
pub fn json_count(n: usize) -> (v: JsonValue)
    ensures
        has_shape(v, JsonShape::Count(n as nat)),
{
    let integer = if n as u64 <= i64::MAX as u64 { Some(n as i64) } else { None };
    JsonValue::Number(JsonNumber { text: decimal_string(n as u64), integer })
}

/// A JSON array of strings.
pub fn json_strings(items: &Vec<String>) -> (v: JsonValue)
    ensures
        has_shape(v, JsonShape::StrArray(views(items@))),
{
    let mut out: Vec<JsonValue> = Vec::new();
    let mut i: usize = 0;
    while i < items.len()
        invariant
            i <= items.len(),
            out@.len() == i,
            forall|j: int| 0 <= j < i ==> ((#[trigger] out@[j]) matches JsonValue::Str(s) && s@ == items@[j]@),
        decreases items.len() - i,
    {
        out.push(JsonValue::Str(items[i].clone()));
        i += 1;
    }
    JsonValue::Array(out)
}

} // verus!
