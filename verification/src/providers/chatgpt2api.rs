use vstd::prelude::*;

use crate::json::{get_items, get_str, json_get, json_items, str_field, JsonValue};
use crate::model::{kept_text, SearchFilters, Source, SourceView};
use crate::text::{all_ascii_digits, all_ascii_digits_exec, char_views, chars_eq, chars_of, decimal_spec, decimal_string, find_char, first_index, join_spec, join_strings, push_str, slice_chars, split_chars, split_spec, starts_with_chars, starts_with_spec, string_from_chars, trim_chars, trim_spec, trim_str, views};

verus! {

/// What ChatGPT2API answers: a synthesized answer and its sources.
pub struct ChatSearchResult {
    pub answer: Option<String>,
    pub sources: Vec<Source>,
}

// ---------------------------------------------------------------------------
// The prompt
// ---------------------------------------------------------------------------

/// The prompt for a query: the query alone, or the query followed by its constraints.
pub open spec fn prompt_spec(query: Seq<char>, f: SearchFilters) -> Seq<char> {
    if f.is_empty_spec() {
        query
    } else {
        query + "\n\nSearch constraints:"@ + (match f.recency_days {
            Some(d) => "\n- Prefer information published within the last "@ + decimal_spec(d as nat)
                + " days."@,
            None => seq![],
        }) + (if f.include_domains@.len() > 0 {
            "\n- Prefer only these domains: "@ + join_spec(views(f.include_domains@), ", "@) + "."@
        } else {
            seq![]
        }) + (if f.exclude_domains@.len() > 0 {
            "\n- Exclude these domains: "@ + join_spec(views(f.exclude_domains@), ", "@) + "."@
        } else {
            seq![]
        })
    }
}

/// The prompt sent to ChatGPT2API: the query, with the filters spelled out as constraints.
pub fn query_with_filters(query: &str, filters: &SearchFilters) -> (r: String)
    ensures
        r@ == prompt_spec(query@, *filters),
{
    let mut prompt = query.to_owned();
    if filters.is_empty() {
        return prompt;
    }
    push_str(&mut prompt, "\n\nSearch constraints:");
    let ghost a = prompt@;
    if let Some(days) = filters.recency_days {
        push_str(&mut prompt, "\n- Prefer information published within the last ");
        let d = decimal_string(days as u64);
        push_str(&mut prompt, d.as_str());
        push_str(&mut prompt, " days.");
    }
    let ghost b = prompt@;
    if filters.include_domains.len() > 0 {
        push_str(&mut prompt, "\n- Prefer only these domains: ");
        let j = join_strings(&filters.include_domains, ", ");
        push_str(&mut prompt, j.as_str());
        push_str(&mut prompt, ".");
    }
    let ghost c = prompt@;
    if filters.exclude_domains.len() > 0 {
        push_str(&mut prompt, "\n- Exclude these domains: ");
        let j = join_strings(&filters.exclude_domains, ", ");
        push_str(&mut prompt, j.as_str());
        push_str(&mut prompt, ".");
    }
    assert(prompt@ =~= prompt_spec(query@, *filters));
    prompt
}

// ---------------------------------------------------------------------------
// Citation markers in answers
// ---------------------------------------------------------------------------

/// Opens a citation marker.
pub open spec fn marker_open() -> char {
    '\u{e200}'
}

/// Closes a citation marker.
pub open spec fn marker_close() -> char {
    '\u{e201}'
}

/// Separates the fields of a citation marker.
pub open spec fn marker_sep() -> char {
    '\u{e202}'
}

/// A marker field that reads as text: not blank, not a `turn`/`source` reference, not a
/// bare number.
pub open spec fn readable_part(p: Seq<char>) -> bool {
    let v = trim_spec(p);
    &&& v.len() > 0
    &&& !starts_with_spec(v, "turn"@)
    &&& !starts_with_spec(v, "source"@)
    &&& !all_ascii_digits(v)
}

/// The first readable field, or nothing.
pub open spec fn first_readable(ps: Seq<Seq<char>>) -> Seq<char>
    decreases ps.len(),
{
    if ps.len() == 0 {
        seq![]
    } else if readable_part(ps[0]) {
        ps[0]
    } else {
        first_readable(ps.drop_first())
    }
}

/// The text that replaces a citation marker with body `a`.
pub open spec fn readable_spec(a: Seq<char>) -> Seq<char> {
    let parts = split_spec(a, marker_sep());
    if parts[0] == "url"@ {
        let label = if parts.len() > 1 { parts[1] } else { seq![] };
        let url = if parts.len() > 2 { parts[2] } else { seq![] };
        if label.len() > 0 && url.len() > 0 {
            label + " ("@ + url + ")"@
        } else if label.len() > 0 {
            label
        } else {
            url
        }
    } else {
        first_readable(parts.skip(1))
    }
}

pub proof fn lemma_first_index_bound(s: Seq<char>, c: char)
    ensures
        match first_index(s, c) {
            Some(k) => 0 <= k < s.len(),
            None => true,
        },
    decreases s.len(),
{
    if s.len() > 0 {
        lemma_first_index_bound(s.drop_first(), c);
    }
}

/// Rewrites the markers of `rem` after `out` has been produced. A marker without its
/// closing character ends the rewriting: what follows is appended as it stands, after
/// the text before that marker.
pub open spec fn clean_rest(out: Seq<char>, rem: Seq<char>) -> Seq<char>
    decreases rem.len(),
{
    match first_index(rem, marker_open()) {
        None => out + rem,
        Some(start) => {
            let ann = rem.skip(start + 1);
            match first_index(ann, marker_close()) {
                None => out + rem.take(start) + rem,
                Some(end) => {
                    proof {
                        lemma_first_index_bound(rem, marker_open());
                        lemma_first_index_bound(ann, marker_close());
                    }
                    clean_rest(out + rem.take(start) + readable_spec(ann.take(end)), ann.skip(end + 1))
                }
            }
        }
    }
}

/// An answer with its citation markers replaced by readable text, trimmed.
pub open spec fn clean_spec(text: Seq<char>) -> Seq<char> {
    trim_spec(clean_rest(seq![], text))
}

fn first_readable_exec(parts: &Vec<Vec<char>>, from: usize) -> (r: Vec<char>)
    requires
        from <= parts.len(),
    ensures
        r@ == first_readable(char_views(parts@).skip(from as int)),
{
    let ghost all = char_views(parts@);
    let turn = chars_of("turn");
    let source = chars_of("source");
    let mut i = from;
    while i < parts.len()
        invariant
            from <= i <= parts.len(),
            all == char_views(parts@),
            turn@ == "turn"@,
            source@ == "source"@,
            first_readable(all.skip(from as int)) == first_readable(all.skip(i as int)),
        decreases parts.len() - i,
    {
        assert(all.skip(i as int)[0] == parts@[i as int]@);
        assert(all.skip(i as int).drop_first() == all.skip(i + 1));
        let v = trim_chars(&parts[i]);
        if v.len() > 0 && !starts_with_chars(&v, &turn) && !starts_with_chars(&v, &source)
            && !all_ascii_digits_exec(&v) {
            return slice_chars(&parts[i], 0, parts[i].len());
        }
        i += 1;
    }
    assert(all.skip(i as int).len() == 0);
    Vec::new()
}

/// The readable text for a marker whose body is `v[from..to]`.
fn readable(v: &Vec<char>, from: usize, to: usize) -> (r: Vec<char>)
    requires
        from <= to <= v.len(),
    ensures
        r@ == readable_spec(v@.subrange(from as int, to as int)),
{
    let body = slice_chars(v, from, to);
    let parts = split_chars(&body, '\u{e202}');
    let ghost pv = char_views(parts@);
    assert(pv[0] == parts@[0]@);
    if chars_eq(&parts[0], &chars_of("url")) {
        let label = if parts.len() > 1 { slice_chars(&parts[1], 0, parts[1].len()) } else { Vec::new() };
        let url = if parts.len() > 2 { slice_chars(&parts[2], 0, parts[2].len()) } else { Vec::new() };
        proof {
            if parts@.len() > 1 {
                assert(pv[1] == parts@[1]@);
            }
            if parts@.len() > 2 {
                assert(pv[2] == parts@[2]@);
            }
        }
        if label.len() > 0 && url.len() > 0 {
            let mut out = label;
            out.push(' ');
            out.push('(');
            let ghost o = out@;
            let mut k: usize = 0;
            while k < url.len()
                invariant
                    k <= url.len(),
                    out@ == o + url@.subrange(0, k as int),
                decreases url.len() - k,
            {
                out.push(url[k]);
                assert(url@.subrange(0, k + 1) == url@.subrange(0, k as int).push(url@[k as int]));
                k += 1;
            }
            out.push(')');
            proof {
                reveal_strlit(" (");
                reveal_strlit(")");
            }
            assert(url@.subrange(0, url@.len() as int) == url@);
            assert(out@ =~= label@ + " ("@ + url@ + ")"@);
            out
        } else if label.len() > 0 {
            label
        } else {
            url
        }
    } else {
        first_readable_exec(&parts, 1)
    }
}

/// An answer with its citation markers replaced by readable text, trimmed.
pub fn clean_search_text(text: &str) -> (r: String)
    ensures
        r@ == clean_spec(text@),
{
    let v = chars_of(text);
    let mut out: Vec<char> = Vec::new();
    let mut pos: usize = 0;
    assert(v@.skip(0) == v@);
    loop
        invariant
            pos <= v.len(),
            v@ == text@,
            clean_rest(out@, v@.skip(pos as int)) == clean_rest(seq![], v@),
        decreases v.len() - pos,
    {
        let ghost rem = v@.skip(pos as int);
        match find_char(&v, '\u{e200}', pos) {
            None => {
                let rest = slice_chars(&v, pos, v.len());
                assert(rest@ == rem);
                assert(clean_rest(out@, rem) == out@ + rem);
                let mut all = out;
                let ghost before = all@;
                all.append(&mut slice_chars(&v, pos, v.len()));
                assert(all@ == before + rem);
                let t = trim_chars(&all);
                return string_from_chars(&t);
            }
            Some(start) => {
                let ghost srel = start - pos;
                assert(rem.take(srel) == v@.subrange(pos as int, start as int));
                assert(rem.skip(srel + 1) == v@.skip(start + 1));
                match find_char(&v, '\u{e201}', start + 1) {
                    None => {
                        assert(clean_rest(out@, rem) == out@ + rem.take(srel) + rem);
                        let mut all = out;
                        let ghost before = all@;
                        all.append(&mut slice_chars(&v, pos, start));
                        all.append(&mut slice_chars(&v, pos, v.len()));
                        assert(v@.subrange(pos as int, v@.len() as int) == rem);
                        assert(all@ == before + rem.take(srel) + rem);
                        let t = trim_chars(&all);
                        return string_from_chars(&t);
                    }
                    Some(end) => {
                        let ghost ann = v@.skip(start + 1);
                        let ghost erel = end - (start + 1);
                        assert(ann.take(erel) == v@.subrange(start + 1, end as int));
                        assert(ann.skip(erel + 1) == v@.skip(end + 1));
                        let ghost before = out@;
                        out.append(&mut slice_chars(&v, pos, start));
                        let mut r = readable(&v, start + 1, end);
                        out.append(&mut r);
                        assert(out@ == before + rem.take(srel) + readable_spec(ann.take(erel)));
                        pos = end + 1;
                    }
                }
            }
        }
    }
}

// ---------------------------------------------------------------------------
// The response
// ---------------------------------------------------------------------------

/// The source that a `sources` element describes, when its URL is not blank.
pub open spec fn chat_source(item: JsonValue) -> Option<SourceView> {
    match str_field(item, "url"@) {
        Some(u) => if trim_spec(u).len() == 0 {
            None
        } else {
            let base = SourceView {
                url: trim_spec(u),
                provider: "chatgpt2api"@,
                title: None,
                description: None,
                published_date: None,
                content: None,
            };
            let titled = match str_field(item, "title"@) {
                Some(t) => SourceView { title: kept_text(None, t), ..base },
                None => base,
            };
            Some(match str_field(item, "snippet"@) {
                Some(s) => SourceView { description: kept_text(None, s), ..titled },
                None => titled,
            })
        },
        None => None,
    }
}

/// The sources of a list of elements, in order, skipping elements without a URL.
pub open spec fn chat_sources(items: Seq<JsonValue>) -> Seq<SourceView>
    decreases items.len(),
{
    if items.len() == 0 {
        seq![]
    } else {
        let r = chat_sources(items.drop_last());
        match chat_source(items.last()) {
            Some(s) => r.push(s),
            None => r,
        }
    }
}

/// The answer of a response, cleaned, when it is not blank.
pub open spec fn chat_answer(response: JsonValue) -> Option<Seq<char>> {
    match str_field(response, "answer"@) {
        Some(a) => if clean_spec(a).len() > 0 { Some(clean_spec(a)) } else { None },
        None => None,
    }
}

fn parse_source(item: &JsonValue) -> (r: Option<Source>)
    ensures
        match r {
            Some(s) => chat_source(*item) == Some(s@),
            None => chat_source(*item).is_none(),
        },
{
    let url = match get_str(item, "url") {
        Some(u) => trim_str(u.as_str()),
        None => return None,
    };
    if url.as_str().unicode_len() == 0 {
        return None;
    }
    let mut source = Source::new(url, "chatgpt2api".to_owned());
    if let Some(title) = get_str(item, "title") {
        source = source.with_title(title.clone());
    }
    if let Some(snippet) = get_str(item, "snippet") {
        source = source.with_description(snippet.clone());
    }
    Some(source)
}

/// The answer and sources of a ChatGPT2API response.
pub fn parse_response(response: &JsonValue) -> (r: ChatSearchResult)
    ensures
        match r.answer {
            Some(a) => chat_answer(*response) == Some(a@),
            None => chat_answer(*response).is_none(),
        },
        crate::model::source_views(r.sources@) == chat_sources(json_items(json_get(*response, "sources"@))),
{
    let answer = match get_str(response, "answer") {
        Some(a) => {
            let cleaned = clean_search_text(a.as_str());
            if cleaned.as_str().unicode_len() > 0 { Some(cleaned) } else { None }
        }
        None => None,
    };
    let items = get_items(response, "sources");
    let mut sources: Vec<Source> = Vec::new();
    let mut i: usize = 0;
    while i < items.len()
        invariant
            i <= items.len(),
            crate::model::source_views(sources@) == chat_sources(items@.subrange(0, i as int)),
        decreases items.len() - i,
    {
        assert(items@.subrange(0, i + 1).drop_last() == items@.subrange(0, i as int));
        if let Some(s) = parse_source(&items[i]) {
            let ghost before = crate::model::source_views(sources@);
            sources.push(s);
            assert(crate::model::source_views(sources@) =~= before.push(s@));
        }
        i += 1;
    }
    assert(items@.subrange(0, items@.len() as int) == items@);
    ChatSearchResult { answer, sources }
}

// ---------------------------------------------------------------------------
// Requests
// ---------------------------------------------------------------------------

/// A cleaned answer has no whitespace left at either end.
pub proof fn law_clean_is_trimmed(text: Seq<char>)
    ensures
        trim_spec(clean_spec(text)) == clean_spec(text),
{
    crate::config::lemma_trim_idempotent(clean_rest(seq![], text));
}

/// The body of a search request: the prompt.
pub fn search_body(prompt: &str) -> (v: JsonValue)
    ensures
        crate::json::object_shaped(v, seq![("prompt"@, crate::json::JsonShape::Str(prompt@))]),
{
    let mut m: Vec<(String, JsonValue)> = Vec::new();
    crate::json::push_shaped(&mut m, "prompt", crate::json::str_value(prompt), Ghost(Seq::empty()),
        Ghost(crate::json::JsonShape::Str(prompt@)));
    JsonValue::Object(m)
}

/// `s` without every trailing occurrence of `suffix` (`str::trim_end_matches`).
pub open spec fn trim_end_str_spec(s: Seq<char>, suffix: Seq<char>) -> Seq<char>
    decreases s.len(),
{
    if suffix.len() > 0 && crate::text::ends_with_spec(s, suffix) {
        trim_end_str_spec(s.subrange(0, s.len() - suffix.len()), suffix)
    } else {
        s
    }
}

/// The endpoint that a health probe asks: the search endpoint without its trailing
/// `/search`, then `/models`.
pub open spec fn probe_endpoint_spec(endpoint: Seq<char>) -> Seq<char> {
    trim_end_str_spec(endpoint, "/search"@) + "/models"@
}

/// The endpoint of a health probe.
pub fn probe_endpoint(endpoint: &str) -> (r: String)
    ensures
        r@ == probe_endpoint_spec(endpoint@),
{
    let v = chars_of(endpoint);
    let suffix = chars_of("/search");
    proof {
        reveal_strlit("/search");
    }
    let mut end = v.len();
    assert(v@.subrange(0, end as int) == v@);
    while end >= suffix.len() && crate::text::occurs_at_exec(&v, &suffix, end - suffix.len())
        invariant
            end <= v.len(),
            suffix@ == "/search"@,
            suffix@.len() == 7,
            trim_end_str_spec(endpoint@, "/search"@) == trim_end_str_spec(v@.subrange(0, end as int), "/search"@),
            v@ == endpoint@,
        decreases end,
    {
        let ghost cur = v@.subrange(0, end as int);
        assert(cur.subrange(cur.len() - 7, cur.len() as int) == v@.subrange(end - 7, end as int));
        assert(cur.subrange(0, cur.len() - 7) == v@.subrange(0, end - 7));
        end = end - suffix.len();
    }
    proof {
        let cur = v@.subrange(0, end as int);
        if end >= 7 {
            assert(cur.subrange(cur.len() - 7, cur.len() as int) == v@.subrange(end - 7, end as int));
        }
    }
    let mut r = string_from_range_chars(&v, end);
    push_str(&mut r, "/models");
    r
}

fn string_from_range_chars(v: &Vec<char>, end: usize) -> (s: String)
    requires
        end <= v.len(),
    ensures
        s@ == v@.subrange(0, end as int),
{
    crate::text::string_from_range(v, 0, end)
}

} // verus!
