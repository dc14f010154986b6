use vstd::prelude::*;

use crate::error::HybridSearchError;
use crate::json::{str_or_empty, get_string, json_get, JsonValue};
use crate::sources::SpecialistPage;
use crate::text::{
    chars_eq, chars_of, ends_with_chars, ends_with_spec, is_blank, lower_chars, lower_spec,
    push_str, split_chars, split_spec, starts_with_chars,
    starts_with_spec, string_from_range, trim_spec,
};
use crate::urls::{pair_views, percent_decode, percent_decoded, url_with_query, url_with_query_spec, UrlParts};

verus! {

/// The namespaces whose pages are not articles.
pub open spec fn excluded_namespaces() -> Seq<Seq<char>> {
    seq![
        "Special"@,
        "Talk"@,
        "Category"@,
        "Help"@,
        "User"@,
        "Wikipedia"@,
        "File"@,
        "Template"@,
        "Portal"@,
        "Draft"@,
    ]
}

fn excluded_namespace_list() -> (r: Vec<&'static str>)
    ensures
        r@.len() == excluded_namespaces().len(),
        forall|i: int| 0 <= i < r@.len() ==> #[trigger] r@[i]@ == excluded_namespaces()[i],
{
    let r = vec!["Special", "Talk", "Category", "Help", "User", "Wikipedia", "File", "Template", "Portal", "Draft"];
    assert(r@.len() == 10);
    r
}

/// The namespace of a title: what precedes its first `:`, once percent-decoded.
pub open spec fn namespace_of(title: Seq<char>) -> Seq<char> {
    split_spec(percent_decoded(title), ':')[0]
}

/// Whether a title lies in an excluded namespace, letter case aside (ASCII only).
pub open spec fn excluded_spec(title: Seq<char>) -> bool {
    exists|i: int| 0 <= i < excluded_namespaces().len()
        && #[trigger] lower_spec(excluded_namespaces()[i]) == lower_spec(namespace_of(title))
}

/// Whether a (percent-encoded) title lies in a namespace that holds no articles.
pub fn is_excluded_namespace(title: &str) -> (r: bool)
    ensures
        r == excluded_spec(title@),
{
    let decoded = percent_decode(title);
    let pieces = split_chars(&chars_of(decoded.as_str()), ':');
    assert(crate::text::char_views(pieces@)[0] == pieces@[0]@);
    let namespace = lower_chars(&pieces[0]);
    let names = excluded_namespace_list();
    let mut i: usize = 0;
    while i < names.len()
        invariant
            i <= names.len(),
            names@.len() == excluded_namespaces().len(),
            forall|k: int| 0 <= k < names@.len() ==> #[trigger] names@[k]@ == excluded_namespaces()[k],
            namespace@ == lower_spec(namespace_of(title@)),
            forall|k: int| 0 <= k < i ==> #[trigger] lower_spec(excluded_namespaces()[k]) != namespace@,
        decreases names.len() - i,
    {
        let lowered = lower_chars(&chars_of(names[i]));
        if chars_eq(&lowered, &namespace) {
            assert(lower_spec(excluded_namespaces()[i as int]) == lower_spec(namespace_of(title@)));
            return true;
        }
        i += 1;
    }
    false
}

/// The language of a Wikipedia host: what precedes `.wikipedia.org`.
pub open spec fn language_spec(host: Option<Seq<char>>) -> Option<Seq<char>> {
    match host {
        Some(h) => if ends_with_spec(h, ".wikipedia.org"@) {
            Some(h.subrange(0, h.len() - 14))
        } else {
            None
        },
        None => None,
    }
}

fn language_of(url: &UrlParts) -> (r: Option<String>)
    ensures
        match r {
            Some(l) => language_spec(crate::model::opt_view(url.host)) == Some(l@),
            None => language_spec(crate::model::opt_view(url.host)).is_none(),
        },
{
    match &url.host {
        Some(h) => {
            let hv = chars_of(h.as_str());
            let suffix = chars_of(".wikipedia.org");
            proof {
                reveal_strlit(".wikipedia.org");
            }
            if ends_with_chars(&hv, &suffix) {
                Some(string_from_range(&hv, 0, hv.len() - suffix.len()))
            } else {
                None
            }
        }
        None => None,
    }
}

/// Whether a URL is a Wikipedia article: `/wiki/{title}` on `{language}.wikipedia.org`,
/// the title outside the excluded namespaces.
pub open spec fn matches_spec(host: Option<Seq<char>>, path: Seq<char>) -> bool {
    match language_spec(host) {
        Some(language) => {
            &&& language.len() > 0
            &&& starts_with_spec(path, "/wiki/"@)
            &&& path.len() > 6
            &&& !excluded_spec(path.skip(6))
        },
        None => false,
    }
}

/// Whether a URL is a Wikipedia article.
pub fn matches(url: &UrlParts) -> (r: bool)
    ensures
        r == matches_spec(crate::model::opt_view(url.host), url.path@),
{
    let language = match language_of(url) {
        Some(l) => l,
        None => return false,
    };
    let p = chars_of(url.path.as_str());
    let prefix = chars_of("/wiki/");
    proof {
        reveal_strlit("/wiki/");
    }
    if chars_of(language.as_str()).len() == 0 || !starts_with_chars(&p, &prefix) {
        return false;
    }
    if p.len() <= 6 {
        return false;
    }
    let title = string_from_range(&p, 6, p.len());
    assert(title@ == url.path@.skip(6));
    !is_excluded_namespace(title.as_str())
}

/// The query pairs of an article request.
pub open spec fn query_pairs(title: Seq<char>) -> Seq<(Seq<char>, Seq<char>)> {
    seq![
        ("action"@, "query"@),
        ("prop"@, "extracts"@),
        ("explaintext"@, "true"@),
        ("titles"@, title),
        ("format"@, "json"@),
        ("redirects"@, "1"@),
    ]
}

/// The API request for the article that a URL names: its plain-text extract, redirects
/// followed, the title percent-decoded; or the text of the parse error that refuses it.
pub open spec fn request_spec(host: Option<Seq<char>>, path: Seq<char>) -> Result<Seq<char>, Seq<char>> {
    match language_spec(host) {
        None => Err("invalid Wikipedia host"@),
        Some(language) => match url_with_query_spec(
            "https://"@ + language + ".wikipedia.org/w/api.php"@,
            query_pairs(percent_decoded(path.skip(6))),
        ) {
            Ok(u) => Ok(u),
            Err(e) => Err("invalid Wikipedia API URL: "@ + e),
        },
    }
}

/// The API URL for an article.
pub fn request_url(url: &UrlParts) -> (r: Result<String, HybridSearchError>)
    requires
        starts_with_spec(url.path@, "/wiki/"@),
    ensures
        match request_spec(crate::model::opt_view(url.host), url.path@) {
            Ok(u) => r matches Ok(s) && s@ == u,
            Err(m) => r matches Err(HybridSearchError::Parse(e)) && e@ == m,
        },
{
    let language = match language_of(url) {
        Some(l) => l,
        None => return Err(HybridSearchError::Parse("invalid Wikipedia host".to_owned())),
    };
    let p = chars_of(url.path.as_str());
    proof {
        reveal_strlit("/wiki/");
    }
    let raw = string_from_range(&p, 6, p.len());
    assert(raw@ == url.path@.skip(6));
    let title = percent_decode(raw.as_str());
    let mut base = "https://".to_owned();
    push_str(&mut base, language.as_str());
    push_str(&mut base, ".wikipedia.org/w/api.php");
    let mut pairs: Vec<(String, String)> = Vec::new();
    pairs.push(("action".to_owned(), "query".to_owned()));
    pairs.push(("prop".to_owned(), "extracts".to_owned()));
    pairs.push(("explaintext".to_owned(), "true".to_owned()));
    pairs.push(("titles".to_owned(), title));
    pairs.push(("format".to_owned(), "json".to_owned()));
    pairs.push(("redirects".to_owned(), "1".to_owned()));
    assert(pair_views(pairs@) =~= query_pairs(percent_decoded(url.path@.skip(6))));
    match url_with_query(base.as_str(), &pairs) {
        Ok(u) => Ok(u),
        Err(e) => {
            let mut m = "invalid Wikipedia API URL: ".to_owned();
            push_str(&mut m, e.as_str());
            Err(HybridSearchError::Parse(m))
        }
    }
}

/// The first page of a response: the first member of `query.pages`.
pub open spec fn first_page_spec(response: JsonValue) -> Option<JsonValue> {
    match json_get(response, "query"@) {
        Some(q) => match json_get(q, "pages"@) {
            Some(JsonValue::Object(m)) => if m@.len() > 0 { Some(m@[0].1) } else { None },
            _ => None,
        },
        None => None,
    }
}

/// The article page of an API response: `# {title}`, then the extract; a response
/// without a page, or whose extract is blank, is refused.
pub open spec fn page_spec(response: JsonValue) -> Result<Seq<char>, Seq<char>> {
    match first_page_spec(response) {
        None => Err("Wikipedia returned no page"@),
        Some(page) => {
            let extract = str_or_empty(page, "extract"@);
            if trim_spec(extract).len() == 0 {
                Err("Wikipedia returned empty article content"@)
            } else {
                Ok("# "@ + str_or_empty(page, "title"@) + "\n\n"@ + extract + "\n"@)
            }
        },
    }
}

/// The article page of an API response, or the request's own error.
pub fn page_from(response: Result<JsonValue, HybridSearchError>) -> (r: Result<SpecialistPage, HybridSearchError>)
    ensures
        match response {
            Err(e) => r == Err::<SpecialistPage, HybridSearchError>(e),
            Ok(v) => match page_spec(v) {
                Ok(c) => r matches Ok(p) && p.content@ == c && p.source_type@ == "wikipedia"@,
                Err(m) => r matches Err(HybridSearchError::Provider(e)) && e@ == m,
            },
        },
{
    let v = match response {
        Ok(v) => v,
        Err(e) => return Err(e),
    };
    let page = match v.get("query") {
        Some(q) => match q.get("pages") {
            Some(JsonValue::Object(m)) => if m.len() > 0 {
                Some(&m[0].1)
            } else {
                None
            },
            _ => None,
        },
        None => None,
    };
    let page = match page {
        Some(p) => p,
        None => return Err(HybridSearchError::Provider("Wikipedia returned no page".to_owned())),
    };
    let extract = get_string(page, "extract");
    if is_blank(extract.as_str()) {
        return Err(HybridSearchError::Provider("Wikipedia returned empty article content".to_owned()));
    }
    let title = get_string(page, "title");
    let mut content = "# ".to_owned();
    push_str(&mut content, title.as_str());
    push_str(&mut content, "\n\n");
    push_str(&mut content, extract.as_str());
    push_str(&mut content, "\n");
    Ok(SpecialistPage { content, source_type: "wikipedia".to_owned() })
}

} // verus!
