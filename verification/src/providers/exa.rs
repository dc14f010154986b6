use vstd::prelude::*;

use crate::error::HybridSearchError;
use crate::json::{get_str, json_get, json_items, object_shaped, push_shaped, str_field, str_value, JsonShape, JsonValue};
use crate::model::{opt_view, source_views, FetchedPage, SearchFilters, Source, SourceView};
use crate::providers::{build_source, built_source, first_item, first_result, json_count, json_strings, nonblank};
use crate::text::{ends_with_spec, is_blank, trim_spec, views};

verus! {

/// A `strftime` format made of `%Y`, `%m`, `%d` and characters other than `%`, which
/// chrono writes for any date without error.
pub open spec fn plain_date_format(f: Seq<char>) -> bool
    decreases f.len(),
{
    if f.len() == 0 {
        true
    } else if f[0] == '%' {
        f.len() >= 2 && (f[1] == 'Y' || f[1] == 'm' || f[1] == 'd') && plain_date_format(f.skip(2))
    } else {
        plain_date_format(f.drop_first())
    }
}

/// `chrono::Utc::now().checked_sub_signed(TimeDelta::try_days(days)?)` written with
/// `format`: the day `days` days before now, or `None` when that day lies outside chrono's
/// range. Both depend on the clock, so nothing is stated of the result.
#[verifier::external_body]
fn date_days_ago(days: u32, format: &str) -> Option<String>
    requires
        plain_date_format(format@),
{
    let earlier = chrono::Utc::now().checked_sub_signed(chrono::TimeDelta::try_days(i64::from(days))?)?;
    Some(earlier.format(format).to_string())
}

/// The start of the day `days` days before now, as Exa takes it: the date, then
/// `T00:00:00.000Z`.
fn start_of_day_ago(days: u32) -> (r: Option<String>)
    ensures
        match r {
            Some(d) => ends_with_spec(d@, "T00:00:00.000Z"@),
            None => true,
        },
{
    proof {
        reveal_strlit("%Y-%m-%d");
        assert("%Y-%m-%d"@.skip(2).skip(1).skip(2).skip(1).skip(2).len() == 0);
        assert(plain_date_format("%Y-%m-%d"@.skip(2).skip(1).skip(2).skip(1).skip(2)));
        assert(plain_date_format("%Y-%m-%d"@.skip(2).skip(1).skip(2).skip(1)));
        assert(plain_date_format("%Y-%m-%d"@.skip(2).skip(1).skip(2)));
        assert(plain_date_format("%Y-%m-%d"@.skip(2).skip(1)));
        assert(plain_date_format("%Y-%m-%d"@.skip(2)));
    }
    match date_days_ago(days, "%Y-%m-%d") {
        Some(date) => {
            let mut d = date;
            crate::text::push_str(&mut d, "T00:00:00.000Z");
            assert(d@.subrange(d@.len() - "T00:00:00.000Z"@.len(), d@.len() as int) =~= "T00:00:00.000Z"@);
            Some(d)
        },
        None => None,
    }
}

/// `n` clamped to `lo..=hi`.
pub open spec fn clamp_spec(n: nat, lo: nat, hi: nat) -> nat {
    if n < lo { lo } else if n > hi { hi } else { n }
}

/// The members of a search request: the query, the result count (1 to 100), the domain
/// filters that are not empty, and the earliest publication date when one is given.
pub open spec fn search_shape(
    query: Seq<char>,
    max_results: nat,
    filters: SearchFilters,
    start_date: Option<Seq<char>>,
) -> Seq<(Seq<char>, JsonShape)> {
    let base = seq![("query"@, JsonShape::Str(query)), ("numResults"@, JsonShape::Count(clamp_spec(max_results, 1, 100)))];
    let included = if filters.include_domains@.len() > 0 {
        base.push(("includeDomains"@, JsonShape::StrArray(views(filters.include_domains@))))
    } else {
        base
    };
    let excluded = if filters.exclude_domains@.len() > 0 {
        included.push(("excludeDomains"@, JsonShape::StrArray(views(filters.exclude_domains@))))
    } else {
        included
    };
    match start_date {
        Some(d) => excluded.push(("startPublishedDate"@, JsonShape::Str(d))),
        None => excluded,
    }
}

/// The body of a search request, given the earliest publication date that the recency
/// filter allows.
pub fn search_body(query: &str, max_results: usize, filters: &SearchFilters, start_date: Option<String>) -> (v: JsonValue)
    ensures
        object_shaped(v, search_shape(query@, max_results as nat, *filters, opt_view(start_date))),
{
    let mut m: Vec<(String, JsonValue)> = Vec::new();
    let ghost s0 = Seq::<(Seq<char>, JsonShape)>::empty();
    push_shaped(&mut m, "query", str_value(query), Ghost(s0), Ghost(JsonShape::Str(query@)));
    let count: usize = if max_results < 1 { 1 } else if max_results > 100 { 100 } else { max_results };
    let ghost s1 = s0.push(("query"@, JsonShape::Str(query@)));
    push_shaped(&mut m, "numResults", json_count(count), Ghost(s1), Ghost(JsonShape::Count(count as nat)));
    let ghost s2 = s1.push(("numResults"@, JsonShape::Count(count as nat)));
    let ghost s3 = s2;
    if filters.include_domains.len() > 0 {
        push_shaped(&mut m, "includeDomains", json_strings(&filters.include_domains), Ghost(s2),
            Ghost(JsonShape::StrArray(views(filters.include_domains@))));
        proof {
            s3 = s2.push(("includeDomains"@, JsonShape::StrArray(views(filters.include_domains@))));
        }
    }
    let ghost s4 = s3;
    if filters.exclude_domains.len() > 0 {
        push_shaped(&mut m, "excludeDomains", json_strings(&filters.exclude_domains), Ghost(s3),
            Ghost(JsonShape::StrArray(views(filters.exclude_domains@))));
        proof {
            s4 = s3.push(("excludeDomains"@, JsonShape::StrArray(views(filters.exclude_domains@))));
        }
    }
    if let Some(d) = start_date {
        push_shaped(&mut m, "startPublishedDate", str_value(d.as_str()), Ghost(s4), Ghost(JsonShape::Str(d@)));
    }
    JsonValue::Object(m)
}

/// The body of a search request; with a recency filter of `n` days, results from
/// midnight `n` days ago on. A recency filter that reaches back past the dates the clock
/// library can write is refused.
pub fn search_request(query: &str, max_results: usize, filters: &SearchFilters) -> (r: Result<JsonValue, HybridSearchError>)
    ensures
        match filters.recency_days {
            None => r matches Ok(v) && object_shaped(v, search_shape(query@, max_results as nat, *filters, None)),
            Some(_) => match r {
                Ok(v) => exists|d: Seq<char>| {
                    &&& ends_with_spec(d, "T00:00:00.000Z"@)
                    &&& object_shaped(v, #[trigger] search_shape(query@, max_results as nat, *filters, Some(d)))
                },
                Err(e) => e matches HybridSearchError::InvalidParams(m) && m@ == "web_search.recency_days is too large"@,
            },
        },
{
    let start = match filters.recency_days {
        Some(days) => match start_of_day_ago(days) {
            Some(d) => Some(d),
            None => {
                return Err(HybridSearchError::InvalidParams("web_search.recency_days is too large".to_owned()));
            },
        },
        None => None,
    };
    let ghost sd = opt_view(start);
    let v = search_body(query, max_results, filters, start);
    proof {
        if filters.recency_days is Some {
            let d = sd->Some_0;
            assert(object_shaped(v, search_shape(query@, max_results as nat, *filters, Some(d))));
        }
    }
    Ok(v)
}

/// The members of a contents request: the URL, asked for as text.
pub open spec fn contents_shape(url: Seq<char>) -> Seq<(Seq<char>, JsonShape)> {
    seq![("urls"@, JsonShape::StrArray(seq![url])), ("text"@, JsonShape::Bool(true))]
}

/// The body of a contents request.
pub fn contents_body(url: &str) -> (v: JsonValue)
    ensures
        object_shaped(v, contents_shape(url@)),
{
    let mut urls: Vec<String> = Vec::new();
    urls.push(url.to_owned());
    assert(views(urls@) =~= seq![url@]);
    let mut m: Vec<(String, JsonValue)> = Vec::new();
    let ghost s0 = Seq::<(Seq<char>, JsonShape)>::empty();
    push_shaped(&mut m, "urls", json_strings(&urls), Ghost(s0), Ghost(JsonShape::StrArray(seq![url@])));
    push_shaped(&mut m, "text", JsonValue::Bool(true), Ghost(s0.push(("urls"@, JsonShape::StrArray(seq![url@])))),
        Ghost(JsonShape::Bool(true)));
    JsonValue::Object(m)
}

/// The source of a result: its `url`, title, `summary` and `publishedDate`.
pub open spec fn result_source(item: JsonValue) -> Option<SourceView> {
    match str_field(item, "url"@) {
        Some(u) => Some(built_source(u, "exa"@, str_field(item, "title"@), str_field(item, "summary"@),
            str_field(item, "publishedDate"@))),
        None => None,
    }
}

/// The sources of the results, in order.
pub open spec fn results_spec(items: Seq<JsonValue>) -> Seq<SourceView> {
    crate::providers::filter_sources(items, |item: JsonValue| result_source(item))
}

/// Each result with a string `url` gives a source of that URL from Exa whose title is the
/// result's `title` and whose description is its `summary`, each when it is a string that
/// is not blank.
pub proof fn law_results_keep_titles(items: Seq<JsonValue>, i: int)
    requires
        0 <= i < items.len(),
        str_field(items[i], "url"@) is Some,
    ensures
        exists|k: int| 0 <= k < results_spec(items).len() && {
            let s = #[trigger] results_spec(items)[k];
            &&& s.url == str_field(items[i], "url"@)->Some_0
            &&& s.provider == "exa"@
            &&& s.title == nonblank(str_field(items[i], "title"@))
            &&& s.description == nonblank(str_field(items[i], "summary"@))
        },
{
    let f = |item: JsonValue| result_source(item);
    crate::providers::lemma_filter_sources_has(items, f, i);
    let v = f(items[i])->Some_0;
    let k = choose|k: int| 0 <= k < results_spec(items).len() && results_spec(items)[k] == v;
    assert(results_spec(items)[k] == v);
}

/// The sources of a search response.
pub fn normalize_results(response: &JsonValue) -> (r: Vec<Source>)
    ensures
        source_views(r@) == results_spec(json_items(json_get(*response, "results"@))),
{
    let items = crate::json::get_items(response, "results");
    let mut out: Vec<Source> = Vec::new();
    let mut i: usize = 0;
    while i < items.len()
        invariant
            i <= items.len(),
            items@ == json_items(json_get(*response, "results"@)),
            source_views(out@) == results_spec(items@.take(i as int)),
        decreases items.len() - i,
    {
        assert(items@.take(i + 1).drop_last() == items@.take(i as int));
        assert(items@.take(i + 1).last() == items@[i as int]);
        let item = &items[i];
        if let Some(u) = get_str(item, "url") {
            let s = build_source(u.clone(), "exa", get_str(item, "title"), get_str(item, "summary"),
                get_str(item, "publishedDate"));
            let ghost before = source_views(out@);
            out.push(s);
            assert(source_views(out@) =~= before.push(s@));
        }
        i += 1;
    }
    assert(items@.take(items@.len() as int) == items@);
    out
}

/// The page of a contents response: the first result's `text`, when it is not blank, its
/// title and its `publishedDate`.
pub open spec fn contents_spec(response: JsonValue) -> Option<(Seq<char>, Option<Seq<char>>, Option<Seq<char>>)> {
    match first_result(response) {
        Some(item) => match str_field(item, "text"@) {
            Some(c) => if trim_spec(c).len() == 0 {
                None
            } else {
                Some((c, str_field(item, "title"@), str_field(item, "publishedDate"@)))
            },
            None => None,
        },
        None => None,
    }
}

fn opt_string(s: Option<&String>) -> (r: Option<String>)
    ensures
        opt_view(r) == crate::json::opt_str_view(s),
{
    match s {
        Some(t) => Some(t.clone()),
        None => None,
    }
}

/// The page of a contents response, or the error of an empty one.
pub fn contents_page(response: &JsonValue) -> (r: Result<FetchedPage, HybridSearchError>)
    ensures
        match contents_spec(*response) {
            Some((c, t, d)) => r matches Ok(p) && p.content@ == c && opt_view(p.title) == t && opt_view(p.published_date) == d,
            None => r matches Err(HybridSearchError::Provider(m)) && m@ == "Exa contents returned no content"@,
        },
{
    let item = match first_item(response, "results") {
        Some(i) => i,
        None => return Err(HybridSearchError::Provider("Exa contents returned no content".to_owned())),
    };
    let content = match get_str(item, "text") {
        Some(c) => c,
        None => return Err(HybridSearchError::Provider("Exa contents returned no content".to_owned())),
    };
    if is_blank(content.as_str()) {
        return Err(HybridSearchError::Provider("Exa contents returned no content".to_owned()));
    }
    Ok(FetchedPage {
        content: content.clone(),
        title: opt_string(get_str(item, "title")),
        published_date: opt_string(get_str(item, "publishedDate")),
    })
}

} // verus!
