use vstd::prelude::*;

use crate::error::HybridSearchError;
use crate::json::{get_str, json_get, json_items, object_shaped, push_shaped, str_field, str_value, JsonShape, JsonValue};
use crate::model::{opt_view, source_views, FetchedPage, SearchFilters, Source, SourceView};
use crate::providers::exa::clamp_spec;
use crate::providers::{build_source, built_source, first_item, first_result, json_strings, nonblank};
use crate::text::{decimal_spec, decimal_string, is_blank, join_spec, join_strings, push_str, trim_spec, views};
use crate::urls::pair_views;

verus! {

/// The query parameters of a search: the query, the domain filters that are not empty
/// (comma-joined), and the recency in minutes (from 1 to 5,256,000, ten years).
pub open spec fn search_params_spec(query: Seq<char>, filters: SearchFilters) -> Seq<(Seq<char>, Seq<char>)> {
    let base = seq![("query"@, query)];
    let included = if filters.include_domains@.len() > 0 {
        base.push(("include_domains"@, join_spec(views(filters.include_domains@), ","@)))
    } else {
        base
    };
    let excluded = if filters.exclude_domains@.len() > 0 {
        included.push(("exclude_domains"@, join_spec(views(filters.exclude_domains@), ","@)))
    } else {
        included
    };
    match filters.recency_days {
        Some(d) => excluded.push(("recency_minutes"@, decimal_spec(clamp_spec((d * 1440) as nat, 1, 5_256_000)))),
        None => excluded,
    }
}

/// The query parameters of a search.
pub fn search_params(query: &str, filters: &SearchFilters) -> (r: Vec<(String, String)>)
    ensures
        pair_views(r@) == search_params_spec(query@, *filters),
{
    let mut params: Vec<(String, String)> = Vec::new();
    params.push(("query".to_owned(), query.to_owned()));
    let ghost p1 = pair_views(params@);
    assert(p1 =~= seq![("query"@, query@)]);
    if filters.include_domains.len() > 0 {
        let joined = join_strings(&filters.include_domains, ",");
        params.push(("include_domains".to_owned(), joined));
        assert(pair_views(params@) =~= p1.push(("include_domains"@, joined@)));
    }
    let ghost p2 = pair_views(params@);
    if filters.exclude_domains.len() > 0 {
        let joined = join_strings(&filters.exclude_domains, ",");
        params.push(("exclude_domains".to_owned(), joined));
        assert(pair_views(params@) =~= p2.push(("exclude_domains"@, joined@)));
    }
    let ghost p3 = pair_views(params@);
    if let Some(days) = filters.recency_days {
        let minutes: u64 = days as u64 * 1440;
        let clamped: u64 = if minutes < 1 { 1 } else if minutes > 5_256_000 { 5_256_000 } else { minutes };
        let text = decimal_string(clamped);
        params.push(("recency_minutes".to_owned(), text));
        assert(pair_views(params@) =~= p3.push(("recency_minutes"@, text@)));
    }
    params
}

/// The members of a fetch request: the URL, asked for as Markdown.
pub open spec fn fetch_shape(url: Seq<char>) -> Seq<(Seq<char>, JsonShape)> {
    seq![("urls"@, JsonShape::StrArray(seq![url])), ("format"@, JsonShape::Str("markdown"@))]
}

/// The body of a fetch request.
pub fn fetch_body(url: &str) -> (v: JsonValue)
    ensures
        object_shaped(v, fetch_shape(url@)),
{
    let mut urls: Vec<String> = Vec::new();
    urls.push(url.to_owned());
    assert(views(urls@) =~= seq![url@]);
    let mut m: Vec<(String, JsonValue)> = Vec::new();
    let ghost s0 = Seq::<(Seq<char>, JsonShape)>::empty();
    push_shaped(&mut m, "urls", json_strings(&urls), Ghost(s0), Ghost(JsonShape::StrArray(seq![url@])));
    push_shaped(&mut m, "format", str_value("markdown"), Ghost(s0.push(("urls"@, JsonShape::StrArray(seq![url@])))),
        Ghost(JsonShape::Str("markdown"@)));
    JsonValue::Object(m)
}

/// The source of a result: its `url`, title, `snippet` and `date`.
pub open spec fn result_source(item: JsonValue) -> Option<SourceView> {
    match str_field(item, "url"@) {
        Some(u) => Some(built_source(u, "tinyfish"@, str_field(item, "title"@), str_field(item, "snippet"@),
            str_field(item, "date"@))),
        None => None,
    }
}

/// The sources of the results, in order.
pub open spec fn results_spec(items: Seq<JsonValue>) -> Seq<SourceView> {
    crate::providers::filter_sources(items, |item: JsonValue| result_source(item))
}

/// Each result with a string `url` gives a source of that URL from TinyFish whose title is
/// the result's `title`, whose description is its `snippet` and whose date is its `date`,
/// each when it is a string that is not blank.
pub proof fn law_results_keep_titles(items: Seq<JsonValue>, i: int)
    requires
        0 <= i < items.len(),
        str_field(items[i], "url"@) is Some,
    ensures
        exists|k: int| 0 <= k < results_spec(items).len() && {
            let s = #[trigger] results_spec(items)[k];
            &&& s.url == str_field(items[i], "url"@)->Some_0
            &&& s.provider == "tinyfish"@
            &&& s.title == nonblank(str_field(items[i], "title"@))
            &&& s.description == nonblank(str_field(items[i], "snippet"@))
            &&& s.published_date == nonblank(str_field(items[i], "date"@))
        },
{
    let f = |item: JsonValue| result_source(item);
    crate::providers::lemma_filter_sources_has(items, f, i);
    let v = f(items[i])->Some_0;
    let k = choose|k: int| 0 <= k < results_spec(items).len() && results_spec(items)[k] == v;
    assert(results_spec(items)[k] == v);
}

/// The sources of a search response, at most `max_results` of them.
pub fn normalize_results(response: &JsonValue, max_results: usize) -> (r: Vec<Source>)
    ensures
        ({
            let all = results_spec(json_items(json_get(*response, "results"@)));
            source_views(r@) == if all.len() <= max_results { all } else { all.take(max_results as int) }
        }),
{
    let items = crate::json::get_items(response, "results");
    let mut out: Vec<Source> = Vec::new();
    let mut i: usize = 0;
    while i < items.len()
        invariant
            i <= items.len(),
            items@ == json_items(json_get(*response, "results"@)),
            source_views(out@) == results_spec(items@.take(i as int)),
        decreases items.len() - i,
    {
        assert(items@.take(i + 1).drop_last() == items@.take(i as int));
        assert(items@.take(i + 1).last() == items@[i as int]);
        let item = &items[i];
        if let Some(u) = get_str(item, "url") {
            let s = build_source(u.clone(), "tinyfish", get_str(item, "title"), get_str(item, "snippet"),
                get_str(item, "date"));
            let ghost before = source_views(out@);
            out.push(s);
            assert(source_views(out@) =~= before.push(s@));
        }
        i += 1;
    }
    assert(items@.take(items@.len() as int) == items@);
    let ghost all = source_views(out@);
    out.truncate(max_results);
    assert(source_views(out@) =~= if all.len() <= max_results { all } else { all.take(max_results as int) });
    out
}

/// Why a fetch returned nothing: the first error's `error` text, else a fixed phrase.
pub open spec fn failure_detail(response: JsonValue) -> Seq<char> {
    let errors = json_items(json_get(response, "errors"@));
    let detail = if errors.len() > 0 { str_field(errors[0], "error"@) } else { None };
    match detail {
        Some(d) => d,
        None => "no content returned"@,
    }
}

/// The page of a fetch response: the first result's `text`, when it is not blank, and its
/// title; or the reason the response gives for failing.
pub open spec fn fetch_spec(response: JsonValue) -> Result<(Seq<char>, Option<Seq<char>>), Seq<char>> {
    let found = match first_result(response) {
        Some(item) => match str_field(item, "text"@) {
            Some(c) => if trim_spec(c).len() == 0 { None } else { Some((c, str_field(item, "title"@))) },
            None => None,
        },
        None => None,
    };
    match found {
        Some(p) => Ok(p),
        None => Err("TinyFish fetch failed: "@ + failure_detail(response)),
    }
}

fn failure(response: &JsonValue) -> (e: HybridSearchError)
    ensures
        e matches HybridSearchError::Provider(m) && m@ == "TinyFish fetch failed: "@ + failure_detail(*response),
{
    let detail = match first_item(response, "errors") {
        Some(e) => get_str(e, "error"),
        None => None,
    };
    let mut m = "TinyFish fetch failed: ".to_owned();
    match detail {
        Some(d) => push_str(&mut m, d.as_str()),
        None => push_str(&mut m, "no content returned"),
    }
    HybridSearchError::Provider(m)
}

/// The page of a fetch response, or the error it reports.
pub fn fetch_page(response: &JsonValue) -> (r: Result<FetchedPage, HybridSearchError>)
    ensures
        match fetch_spec(*response) {
            Ok((c, t)) => r matches Ok(p) && p.content@ == c && opt_view(p.title) == t && p.published_date is None,
            Err(m) => r matches Err(HybridSearchError::Provider(e)) && e@ == m,
        },
{
    let item = match first_item(response, "results") {
        Some(i) => i,
        None => return Err(failure(response)),
    };
    let content = match get_str(item, "text") {
        Some(c) => c,
        None => return Err(failure(response)),
    };
    if is_blank(content.as_str()) {
        return Err(failure(response));
    }
    let title = match get_str(item, "title") {
        Some(t) => Some(t.clone()),
        None => None,
    };
    Ok(FetchedPage { content: content.clone(), title, published_date: None })
}

} // verus!
