use vstd::prelude::*;

use crate::config::{key_list, key_list_spec};
use crate::error::HybridSearchError;
use crate::json::{as_str_opt, either_member, get_either, get_str, json_get, json_items, json_str, object_shaped, push_shaped, str_field, str_value, JsonShape, JsonValue};
use crate::model::{source_views, FetchedPage, SearchFilters, Source, SourceView};
use crate::providers::http::HttpFailure;
use crate::providers::{build_source, built_source, first_item, first_result, json_count, json_strings, nonblank};
use crate::text::{is_blank, trim_spec, views};

verus! {

// ---------------------------------------------------------------------------
// Keys
// ---------------------------------------------------------------------------

/// The API keys of Tavily, tried in turn when one is refused.
pub struct KeyRing {
    pub keys: Vec<String>,
}

impl KeyRing {
    /// The ring is never empty.
    pub open spec fn wf(&self) -> bool {
        self.keys@.len() >= 1
    }

    /// The keys of a comma-separated value: its trimmed, non-empty pieces, or the whole
    /// value when there are none.
    pub fn new(value: &str) -> (r: KeyRing)
        ensures
            r.wf(),
            views(r.keys@) == key_list_spec(value@),
    {
        KeyRing { keys: key_list(value) }
    }

    /// The key of attempt `offset` of a request whose first attempt used key `start`:
    /// the keys are tried in ring order.
    pub fn key_at(&self, start: usize, offset: usize) -> (k: &String)
        requires
            self.wf(),
            start < self.keys@.len(),
            offset < self.keys@.len(),
        ensures
            *k == self.keys@[(start + offset) % (self.keys@.len() as int)],
    {
        let n = self.keys.len();
        let i = if start >= n - offset { start - (n - offset) } else { start + offset };
        assert(i == (start + offset) % (n as int)) by {
            if start + offset >= n {
                assert((start + offset) % (n as int) == start + offset - n) by (nonlinear_arith)
                    requires
                        n <= start + offset < 2 * n,
                ;
            } else {
                assert((start + offset) % (n as int) == start + offset) by (nonlinear_arith)
                    requires
                        0 <= start + offset < n,
                ;
            }
        }
        &self.keys[i]
    }
}

proof fn lemma_mod_below_twice(x: int, n: int)
    requires
        0 <= x < 2 * n,
        n > 0,
    ensures
        x % n == if x < n { x } else { x - n },
{
    if x < n {
        assert(x % n == x) by (nonlinear_arith)
            requires
                0 <= x < n,
        ;
    } else {
        assert(x % n == x - n) by (nonlinear_arith)
            requires
                n <= x < 2 * n,
        ;
    }
}

/// The attempts of one request never use a key twice: the keys of different attempts,
/// starting from any key, are different positions of the ring.
pub proof fn law_rotation_distinct(start: int, n: int, o1: int, o2: int)
    requires
        0 <= start < n,
        0 <= o1 < n,
        0 <= o2 < n,
        o1 != o2,
    ensures
        (start + o1) % n != (start + o2) % n,
{
    lemma_mod_below_twice(start + o1, n);
    lemma_mod_below_twice(start + o2, n);
}

/// Statuses with which Tavily refuses a key or limits its rate.
pub open spec fn rotating_status(status: u16) -> bool {
    status == 401 || status == 403 || status == 429 || status == 432 || status == 433
}

/// What to do after an attempt: the request is done, or the next key is tried.
pub enum Attempt {
    Done(Result<JsonValue, HybridSearchError>),
    NextKey,
}

/// The decision after attempt `offset` of `key_count`: a refused or rate-limited key is
/// followed by the next one while keys are left; anything else ends the request.
pub fn after_attempt(result: Result<JsonValue, HttpFailure>, offset: usize, key_count: usize) -> (r: Attempt)
    ensures
        match result {
            Ok(v) => r == Attempt::Done(Ok::<JsonValue, HybridSearchError>(v)),
            Err(f) => if (f.status matches Some(s) && rotating_status(s)) && offset + 1 < key_count {
                r is NextKey
            } else {
                r == Attempt::Done(Err::<JsonValue, HybridSearchError>(f.error))
            },
        },
{
    match result {
        Ok(v) => Attempt::Done(Ok(v)),
        Err(f) => {
            let rotate = match f.status {
                Some(s) => s == 401 || s == 403 || s == 429 || s == 432 || s == 433,
                None => false,
            };
            if rotate && offset < key_count && offset + 1 < key_count {
                Attempt::NextKey
            } else {
                Attempt::Done(Err(f.error))
            }
        }
    }
}

/// The error of a request whose every key was refused.
pub fn keys_exhausted() -> (e: HybridSearchError)
    ensures
        e matches HybridSearchError::Provider(m) && m@ == "Tavily request failed"@,
{
    HybridSearchError::Provider("Tavily request failed".to_owned())
}

// ---------------------------------------------------------------------------
// Request bodies
// ---------------------------------------------------------------------------

/// The members of a search request: the query, the result count, no answer; with a
/// recency filter, the days and the news topic; the domain filters that are not empty.
pub open spec fn search_shape(query: Seq<char>, max_results: nat, filters: SearchFilters) -> Seq<(Seq<char>, JsonShape)> {
    let base = seq![
        ("query"@, JsonShape::Str(query)),
        ("max_results"@, JsonShape::Count(max_results)),
        ("include_answer"@, JsonShape::Bool(false)),
    ];
    let dated = match filters.recency_days {
        Some(d) => base.push(("days"@, JsonShape::Count(d as nat))).push(("topic"@, JsonShape::Str("news"@))),
        None => base,
    };
    let included = if filters.include_domains@.len() > 0 {
        dated.push(("include_domains"@, JsonShape::StrArray(views(filters.include_domains@))))
    } else {
        dated
    };
    if filters.exclude_domains@.len() > 0 {
        included.push(("exclude_domains"@, JsonShape::StrArray(views(filters.exclude_domains@))))
    } else {
        included
    }
}

/// The body of a search request.
pub fn search_body(query: &str, max_results: usize, filters: &SearchFilters) -> (v: JsonValue)
    ensures
        object_shaped(v, search_shape(query@, max_results as nat, *filters)),
{
    let mut m: Vec<(String, JsonValue)> = Vec::new();
    let ghost shapes = Seq::<(Seq<char>, JsonShape)>::empty();
    push_shaped(&mut m, "query", str_value(query), Ghost(shapes), Ghost(JsonShape::Str(query@)));
    let ghost shapes = shapes.push(("query"@, JsonShape::Str(query@)));
    push_shaped(&mut m, "max_results", json_count(max_results), Ghost(shapes), Ghost(JsonShape::Count(max_results as nat)));
    let ghost shapes = shapes.push(("max_results"@, JsonShape::Count(max_results as nat)));
    push_shaped(&mut m, "include_answer", JsonValue::Bool(false), Ghost(shapes), Ghost(JsonShape::Bool(false)));
    let ghost shapes = shapes.push(("include_answer"@, JsonShape::Bool(false)));
    proof {
        reveal_strlit("news");
    }
    let ghost dated = shapes;
    if let Some(days) = filters.recency_days {
        push_shaped(&mut m, "days", json_count(days as usize), Ghost(shapes), Ghost(JsonShape::Count(days as nat)));
        push_shaped(&mut m, "topic", str_value("news"), Ghost(shapes.push(("days"@, JsonShape::Count(days as nat)))),
            Ghost(JsonShape::Str("news"@)));
        proof {
            dated = shapes.push(("days"@, JsonShape::Count(days as nat))).push(("topic"@, JsonShape::Str("news"@)));
        }
    }
    let ghost included = dated;
    if filters.include_domains.len() > 0 {
        push_shaped(&mut m, "include_domains", json_strings(&filters.include_domains), Ghost(dated),
            Ghost(JsonShape::StrArray(views(filters.include_domains@))));
        proof {
            included = dated.push(("include_domains"@, JsonShape::StrArray(views(filters.include_domains@))));
        }
    }
    if filters.exclude_domains.len() > 0 {
        push_shaped(&mut m, "exclude_domains", json_strings(&filters.exclude_domains), Ghost(included),
            Ghost(JsonShape::StrArray(views(filters.exclude_domains@))));
    }
    JsonValue::Object(m)
}

/// The members of an extract request: the URL, asked for as Markdown.
pub open spec fn extract_shape(url: Seq<char>) -> Seq<(Seq<char>, JsonShape)> {
    seq![("urls"@, JsonShape::StrArray(seq![url])), ("format"@, JsonShape::Str("markdown"@))]
}

/// The body of an extract request.
pub fn extract_body(url: &str) -> (v: JsonValue)
    ensures
        object_shaped(v, extract_shape(url@)),
{
    let mut urls: Vec<String> = Vec::new();
    urls.push(url.to_owned());
    assert(views(urls@) =~= seq![url@]);
    let mut m: Vec<(String, JsonValue)> = Vec::new();
    let ghost shapes = Seq::<(Seq<char>, JsonShape)>::empty();
    push_shaped(&mut m, "urls", json_strings(&urls), Ghost(shapes), Ghost(JsonShape::StrArray(seq![url@])));
    push_shaped(&mut m, "format", str_value("markdown"), Ghost(shapes.push(("urls"@, JsonShape::StrArray(seq![url@])))),
        Ghost(JsonShape::Str("markdown"@)));
    JsonValue::Object(m)
}

/// The members of a map request: the URL, one level deep, at most `max_results` links.
pub open spec fn map_shape(url: Seq<char>, max_results: nat) -> Seq<(Seq<char>, JsonShape)> {
    seq![("url"@, JsonShape::Str(url)), ("max_depth"@, JsonShape::Count(1)), ("limit"@, JsonShape::Count(max_results))]
}

/// The body of a map request.
pub fn map_body(url: &str, max_results: usize) -> (v: JsonValue)
    ensures
        object_shaped(v, map_shape(url@, max_results as nat)),
{
    let mut m: Vec<(String, JsonValue)> = Vec::new();
    let ghost s0 = Seq::<(Seq<char>, JsonShape)>::empty();
    push_shaped(&mut m, "url", str_value(url), Ghost(s0), Ghost(JsonShape::Str(url@)));
    let ghost s1 = s0.push(("url"@, JsonShape::Str(url@)));
    push_shaped(&mut m, "max_depth", json_count(1), Ghost(s1), Ghost(JsonShape::Count(1)));
    let ghost s2 = s1.push(("max_depth"@, JsonShape::Count(1)));
    push_shaped(&mut m, "limit", json_count(max_results), Ghost(s2), Ghost(JsonShape::Count(max_results as nat)));
    JsonValue::Object(m)
}

// ---------------------------------------------------------------------------
// Responses
// ---------------------------------------------------------------------------

/// The source of a result: a bare URL string, or an object with a `url`, its title, its
/// `content` (else `description`) and its date; an object whose score is below the
/// threshold (`low`) is dropped.
pub open spec fn result_source(item: JsonValue, low: bool) -> Option<SourceView> {
    match item {
        JsonValue::Str(u) => Some(built_source(u@, "tavily"@, None, None, None)),
        _ => if low {
            None
        } else {
            match str_field(item, "url"@) {
                Some(u) => Some(built_source(
                    u,
                    "tavily"@,
                    str_field(item, "title"@),
                    json_str(either_member(item, "content"@, "description"@)),
                    str_field(item, "published_date"@),
                )),
                None => None,
            }
        },
    }
}

/// Whether result `i` has a score below the threshold.
pub open spec fn low_at(lows: Seq<bool>, i: int) -> bool {
    0 <= i < lows.len() && lows[i]
}

/// The sources of the results, in order.
pub open spec fn results_spec(items: Seq<JsonValue>, lows: Seq<bool>) -> Seq<SourceView>
    decreases items.len(),
{
    if items.len() == 0 {
        seq![]
    } else {
        let rest = results_spec(items.drop_last(), lows);
        match result_source(items.last(), low_at(lows, items.len() - 1)) {
            Some(s) => rest.push(s),
            None => rest,
        }
    }
}

fn result_to_source(item: &JsonValue, low: bool) -> (r: Option<Source>)
    ensures
        match r {
            Some(s) => result_source(*item, low) == Some(s@),
            None => result_source(*item, low).is_none(),
        },
{
    if let JsonValue::Str(u) = item {
        return Some(build_source(u.clone(), "tavily", None, None, None));
    }
    if low {
        return None;
    }
    let url = match get_str(item, "url") {
        Some(u) => u.clone(),
        None => return None,
    };
    Some(build_source(
        url,
        "tavily",
        get_str(item, "title"),
        as_str_opt(get_either(item, "content", "description")),
        get_str(item, "published_date"),
    ))
}

/// The sources of a search or map response. `low_scores[i]` tells whether result `i`
proof fn lemma_results_has(items: Seq<JsonValue>, lows: Seq<bool>, i: int)
    requires
        0 <= i < items.len(),
        result_source(items[i], low_at(lows, i)) is Some,
    ensures
        results_spec(items, lows).contains(result_source(items[i], low_at(lows, i))->Some_0),
    decreases items.len(),
{
    let rest = results_spec(items.drop_last(), lows);
    if i < items.len() - 1 {
        assert(items.drop_last()[i] == items[i]);
        lemma_results_has(items.drop_last(), lows, i);
        let k = choose|k: int| 0 <= k < rest.len() && rest[k] == result_source(items[i], low_at(lows, i))->Some_0;
        match result_source(items.last(), low_at(lows, items.len() - 1)) {
            Some(x) => assert(rest.push(x)[k] == rest[k]),
            None => {},
        }
    } else {
        assert(items[i] == items.last());
        let x = result_source(items.last(), low_at(lows, items.len() - 1))->Some_0;
        assert(rest.push(x)[rest.len() as int] == x);
    }
}

/// Each result object with a string `url` and a score that is not low gives a source of
/// that URL from Tavily whose title is the result's `title` when that is a string that is
/// not blank; a bare URL string gives a source of that URL.
pub proof fn law_results_keep_titles(items: Seq<JsonValue>, lows: Seq<bool>, i: int)
    requires
        0 <= i < items.len(),
        items[i] is Str || (str_field(items[i], "url"@) is Some && !low_at(lows, i)),
    ensures
        exists|k: int| 0 <= k < results_spec(items, lows).len() && {
            let s = #[trigger] results_spec(items, lows)[k];
            &&& s.provider == "tavily"@
            &&& match items[i] {
                JsonValue::Str(u) => s.url == u@ && s.title is None,
                _ => s.url == str_field(items[i], "url"@)->Some_0 && s.title == nonblank(str_field(items[i], "title"@)),
            }
        },
{
    lemma_results_has(items, lows, i);
    let v = result_source(items[i], low_at(lows, i))->Some_0;
    let k = choose|k: int| 0 <= k < results_spec(items, lows).len() && results_spec(items, lows)[k] == v;
    assert(results_spec(items, lows)[k] == v);
}

/// has a numeric score below one tenth.
pub fn normalize_results(response: &JsonValue, low_scores: &Vec<bool>) -> (r: Vec<Source>)
    ensures
        source_views(r@) == results_spec(json_items(json_get(*response, "results"@)), low_scores@),
{
    let items = crate::json::get_items(response, "results");
    let mut out: Vec<Source> = Vec::new();
    let mut i: usize = 0;
    while i < items.len()
        invariant
            i <= items.len(),
            items@ == json_items(json_get(*response, "results"@)),
            source_views(out@) == results_spec(items@.take(i as int), low_scores@),
        decreases items.len() - i,
    {
        assert(items@.take(i + 1).drop_last() == items@.take(i as int));
        assert(items@.take(i + 1).last() == items@[i as int]);
        let low = i < low_scores.len() && low_scores[i];
        if let Some(s) = result_to_source(&items[i], low) {
            let ghost before = source_views(out@);
            out.push(s);
            assert(source_views(out@) =~= before.push(s@));
        }
        i += 1;
    }
    assert(items@.take(items@.len() as int) == items@);
    out
}

/// The sources of a map response, at most `max_results` of them.
pub fn map_sources(response: &JsonValue, low_scores: &Vec<bool>, max_results: usize) -> (r: Vec<Source>)
    ensures
        ({
            let all = results_spec(json_items(json_get(*response, "results"@)), low_scores@);
            source_views(r@) == if all.len() <= max_results { all } else { all.take(max_results as int) }
        }),
{
    let mut sources = normalize_results(response, low_scores);
    let ghost all = source_views(sources@);
    sources.truncate(max_results);
    assert(source_views(sources@) =~= if all.len() <= max_results { all } else { all.take(max_results as int) });
    sources
}

/// The page of an extract response: the first result's `raw_content` (else `content`),
/// when it is text that is not blank, and its title.
pub open spec fn extract_spec(response: JsonValue) -> Option<(Seq<char>, Option<Seq<char>>)> {
    match first_result(response) {
        Some(item) => match json_str(either_member(item, "raw_content"@, "content"@)) {
            Some(c) => if trim_spec(c).len() == 0 { None } else { Some((c, str_field(item, "title"@))) },
            None => None,
        },
        None => None,
    }
}

/// The page of an extract response, or the error of an empty one.
pub fn extract_page(response: &JsonValue) -> (r: Result<FetchedPage, HybridSearchError>)
    ensures
        match extract_spec(*response) {
            Some((c, t)) => r matches Ok(p) && p.content@ == c && crate::model::opt_view(p.title) == t
                && p.published_date is None,
            None => r matches Err(HybridSearchError::Provider(m)) && m@ == "Tavily extract returned empty content"@,
        },
{
    let item = match first_item(response, "results") {
        Some(i) => i,
        None => return Err(HybridSearchError::Provider("Tavily extract returned empty content".to_owned())),
    };
    let content = match as_str_opt(get_either(item, "raw_content", "content")) {
        Some(c) => c,
        None => return Err(HybridSearchError::Provider("Tavily extract returned empty content".to_owned())),
    };
    if is_blank(content.as_str()) {
        return Err(HybridSearchError::Provider("Tavily extract returned empty content".to_owned()));
    }
    let title = match get_str(item, "title") {
        Some(t) => Some(t.clone()),
        None => None,
    };
    Ok(FetchedPage { content: content.clone(), title, published_date: None })
}

} // verus!
