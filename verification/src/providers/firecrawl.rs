use vstd::prelude::*;

use crate::error::HybridSearchError;
use crate::json::{
    as_str_opt, either_member, get_either, get_str, json_get, json_items, json_str, object_shaped, push_shaped,
    str_field, str_value, JsonShape, JsonValue,
};
use crate::model::{opt_view, source_views, FetchedPage, Source, SourceView};
use crate::providers::{build_source, built_source, json_count, json_strings, nonblank};
use crate::text::{is_blank, trim_spec, views};

verus! {

/// The members of a search request: the query and the result count.
pub open spec fn search_shape(query: Seq<char>, max_results: nat) -> Seq<(Seq<char>, JsonShape)> {
    seq![("query"@, JsonShape::Str(query)), ("limit"@, JsonShape::Count(max_results))]
}

/// The body of a search request.
pub fn search_body(query: &str, max_results: usize) -> (v: JsonValue)
    ensures
        object_shaped(v, search_shape(query@, max_results as nat)),
{
    let mut m: Vec<(String, JsonValue)> = Vec::new();
    let ghost s0 = Seq::<(Seq<char>, JsonShape)>::empty();
    push_shaped(&mut m, "query", str_value(query), Ghost(s0), Ghost(JsonShape::Str(query@)));
    push_shaped(&mut m, "limit", json_count(max_results), Ghost(s0.push(("query"@, JsonShape::Str(query@)))),
        Ghost(JsonShape::Count(max_results as nat)));
    JsonValue::Object(m)
}

/// The members of a scrape request: the URL, asked for as Markdown.
pub open spec fn scrape_shape(url: Seq<char>) -> Seq<(Seq<char>, JsonShape)> {
    seq![("url"@, JsonShape::Str(url)), ("formats"@, JsonShape::StrArray(seq!["markdown"@]))]
}

/// The body of a scrape request.
pub fn scrape_body(url: &str) -> (v: JsonValue)
    ensures
        object_shaped(v, scrape_shape(url@)),
{
    let mut formats: Vec<String> = Vec::new();
    formats.push("markdown".to_owned());
    assert(views(formats@) =~= seq!["markdown"@]);
    let mut m: Vec<(String, JsonValue)> = Vec::new();
    let ghost s0 = Seq::<(Seq<char>, JsonShape)>::empty();
    push_shaped(&mut m, "url", str_value(url), Ghost(s0), Ghost(JsonShape::Str(url@)));
    push_shaped(&mut m, "formats", json_strings(&formats), Ghost(s0.push(("url"@, JsonShape::Str(url@)))),
        Ghost(JsonShape::StrArray(seq!["markdown"@])));
    JsonValue::Object(m)
}

/// The description of a result: its `description`, else `markdown`, else `content`
/// member, when that is text.
pub open spec fn description_spec(item: JsonValue) -> Option<Seq<char>> {
    match json_get(item, "description"@) {
        Some(d) => json_str(Some(d)),
        None => json_str(either_member(item, "markdown"@, "content"@)),
    }
}

/// The source of a result: a bare URL string, or an object with a `url`, its title and
/// its description.
pub open spec fn result_source(item: JsonValue) -> Option<SourceView> {
    match item {
        JsonValue::Str(u) => Some(built_source(u@, "firecrawl"@, None, None, None)),
        _ => match str_field(item, "url"@) {
            Some(u) => Some(built_source(u, "firecrawl"@, str_field(item, "title"@), description_spec(item), None)),
            None => None,
        },
    }
}

/// The results of a response: the array `data`, else `results`.
pub open spec fn result_items(response: JsonValue) -> Seq<JsonValue> {
    json_items(either_member(response, "data"@, "results"@))
}

/// The sources of the results, in order.
pub open spec fn results_spec(items: Seq<JsonValue>) -> Seq<SourceView> {
    crate::providers::filter_sources(items, |item: JsonValue| result_source(item))
}

/// Each result object with a string `url` gives a source of that URL from Firecrawl whose
/// title is the result's `title` when that is a string that is not blank; a bare URL
/// string gives a source of that URL.
pub proof fn law_results_keep_titles(items: Seq<JsonValue>, i: int)
    requires
        0 <= i < items.len(),
        items[i] is Str || str_field(items[i], "url"@) is Some,
    ensures
        exists|k: int| 0 <= k < results_spec(items).len() && {
            let s = #[trigger] results_spec(items)[k];
            &&& s.provider == "firecrawl"@
            &&& match items[i] {
                JsonValue::Str(u) => s.url == u@ && s.title is None,
                _ => s.url == str_field(items[i], "url"@)->Some_0 && s.title == nonblank(str_field(items[i], "title"@)),
            }
        },
{
    let f = |item: JsonValue| result_source(item);
    crate::providers::lemma_filter_sources_has(items, f, i);
    let v = f(items[i])->Some_0;
    let k = choose|k: int| 0 <= k < results_spec(items).len() && results_spec(items)[k] == v;
    assert(results_spec(items)[k] == v);
}

fn result_to_source(item: &JsonValue) -> (r: Option<Source>)
    ensures
        match r {
            Some(s) => result_source(*item) == Some(s@),
            None => result_source(*item).is_none(),
        },
{
    if let JsonValue::Str(u) = item {
        return Some(build_source(u.clone(), "firecrawl", None, None, None));
    }
    let url = match get_str(item, "url") {
        Some(u) => u.clone(),
        None => return None,
    };
    let description = match item.get("description") {
        Some(d) => d.as_str(),
        None => as_str_opt(get_either(item, "markdown", "content")),
    };
    Some(build_source(url, "firecrawl", get_str(item, "title"), description, None))
}

/// The sources of a search response.
pub fn normalize_results(response: &JsonValue) -> (r: Vec<Source>)
    ensures
        source_views(r@) == results_spec(result_items(*response)),
{
    let items: &[JsonValue] = match get_either(response, "data", "results") {
        Some(x) => match x.as_array() {
            Some(a) => a.as_slice(),
            None => &[],
        },
        None => &[],
    };
    let mut out: Vec<Source> = Vec::new();
    let mut i: usize = 0;
    while i < items.len()
        invariant
            i <= items.len(),
            items@ == result_items(*response),
            source_views(out@) == results_spec(items@.take(i as int)),
        decreases items.len() - i,
    {
        assert(items@.take(i + 1).drop_last() == items@.take(i as int));
        assert(items@.take(i + 1).last() == items@[i as int]);
        if let Some(s) = result_to_source(&items[i]) {
            let ghost before = source_views(out@);
            out.push(s);
            assert(source_views(out@) =~= before.push(s@));
        }
        i += 1;
    }
    assert(items@.take(items@.len() as int) == items@);
    out
}

/// The page of a scrape response: in its `data` (else the response itself), the
/// `markdown` (else `content`) when it is text that is not blank, the metadata's title,
/// and its `publishedTime` (else `article:published_time`).
pub open spec fn scrape_spec(response: JsonValue) -> Option<(Seq<char>, Option<Seq<char>>, Option<Seq<char>>)> {
    let data = match json_get(response, "data"@) {
        Some(d) => d,
        None => response,
    };
    match json_str(either_member(data, "markdown"@, "content"@)) {
        Some(c) => if trim_spec(c).len() == 0 {
            None
        } else {
            let meta = json_get(data, "metadata"@);
            Some((c, match meta {
                Some(m) => str_field(m, "title"@),
                None => None,
            }, match meta {
                Some(m) => json_str(either_member(m, "publishedTime"@, "article:published_time"@)),
                None => None,
            }))
        },
        None => None,
    }
}

fn opt_string(s: Option<&String>) -> (r: Option<String>)
    ensures
        opt_view(r) == crate::json::opt_str_view(s),
{
    match s {
        Some(t) => Some(t.clone()),
        None => None,
    }
}

/// The page of a scrape response, or the error of an empty one.
pub fn scrape_page(response: &JsonValue) -> (r: Result<FetchedPage, HybridSearchError>)
    ensures
        match scrape_spec(*response) {
            Some((c, t, d)) => r matches Ok(p) && p.content@ == c && opt_view(p.title) == t && opt_view(p.published_date) == d,
            None => r matches Err(HybridSearchError::Provider(m)) && m@ == "Firecrawl scrape returned empty content"@,
        },
{
    let data = match response.get("data") {
        Some(d) => d,
        None => response,
    };
    let content = match as_str_opt(get_either(data, "markdown", "content")) {
        Some(c) => c,
        None => return Err(HybridSearchError::Provider("Firecrawl scrape returned empty content".to_owned())),
    };
    if is_blank(content.as_str()) {
        return Err(HybridSearchError::Provider("Firecrawl scrape returned empty content".to_owned()));
    }
    let (title, date) = match data.get("metadata") {
        Some(m) => (opt_string(get_str(m, "title")), opt_string(as_str_opt(get_either(m, "publishedTime", "article:published_time")))),
        None => (None, None),
    };
    Ok(FetchedPage { content: content.clone(), title, published_date: date })
}

} // verus!
