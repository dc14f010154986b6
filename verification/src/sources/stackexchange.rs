use vstd::prelude::*;

use crate::error::HybridSearchError;
use crate::json::{get_items, get_str, json_bool, json_get, json_i64, json_items, json_str, str_field, JsonValue};
use crate::sources::SpecialistPage;
use crate::text::{char_from_u32, chars_eq, chars_of, decimal_spec, decimal_string, ends_with_chars, ends_with_spec, find_char, first_index, is_scalar, lemma_first_index_props, parse_hex, parse_hex_spec, parse_unsigned, parse_unsigned_spec, push_str, signed_decimal_spec, signed_decimal_string, slice_chars, str_eq, string_from_chars, string_from_range, views};
use crate::urls::{pair_views, segments_spec, url_with_query, url_with_query_spec, UrlParts};

verus! {

// ---------------------------------------------------------------------------
// Sites
// ---------------------------------------------------------------------------

/// A host of the StackExchange network.
pub open spec fn stackexchange_host_spec(host: Seq<char>) -> bool {
    ||| host == "stackoverflow.com"@
    ||| host == "serverfault.com"@
    ||| host == "superuser.com"@
    ||| host == "askubuntu.com"@
    ||| host == "mathoverflow.net"@
    ||| host == "meta.stackoverflow.com"@
    ||| host == "meta.serverfault.com"@
    ||| host == "meta.superuser.com"@
    ||| host == "meta.askubuntu.com"@
    ||| host == "meta.mathoverflow.net"@
    ||| ends_with_spec(host, ".stackexchange.com"@)
}

/// Whether `host` belongs to the StackExchange network.
pub fn is_stackexchange_host(host: &str) -> (r: bool)
    ensures
        r == stackexchange_host_spec(host@),
{
    let h = chars_of(host);
    str_eq(host, "stackoverflow.com") || str_eq(host, "serverfault.com")
        || str_eq(host, "superuser.com") || str_eq(host, "askubuntu.com")
        || str_eq(host, "mathoverflow.net") || str_eq(host, "meta.stackoverflow.com")
        || str_eq(host, "meta.serverfault.com") || str_eq(host, "meta.superuser.com")
        || str_eq(host, "meta.askubuntu.com") || str_eq(host, "meta.mathoverflow.net")
        || ends_with_chars(&h, &chars_of(".stackexchange.com"))
}

/// The API `site` parameter of a main site.
pub open spec fn base_site_spec(host: Seq<char>) -> Seq<char> {
    if host == "stackoverflow.com"@ {
        "stackoverflow"@
    } else if host == "serverfault.com"@ {
        "serverfault"@
    } else if host == "superuser.com"@ {
        "superuser"@
    } else if host == "askubuntu.com"@ {
        "askubuntu"@
    } else if host == "mathoverflow.net"@ {
        "mathoverflow.net"@
    } else if ends_with_spec(host, ".stackexchange.com"@) {
        host.subrange(0, host.len() - 18)
    } else {
        host
    }
}

/// The API `site` parameter of a main site.
pub fn base_site_parameter(host: &str) -> (r: String)
    ensures
        r@ == base_site_spec(host@),
{
    if str_eq(host, "stackoverflow.com") {
        "stackoverflow".to_owned()
    } else if str_eq(host, "serverfault.com") {
        "serverfault".to_owned()
    } else if str_eq(host, "superuser.com") {
        "superuser".to_owned()
    } else if str_eq(host, "askubuntu.com") {
        "askubuntu".to_owned()
    } else if str_eq(host, "mathoverflow.net") {
        "mathoverflow.net".to_owned()
    } else {
        let h = chars_of(host);
        let suffix = chars_of(".stackexchange.com");
        proof {
            reveal_strlit(".stackexchange.com");
        }
        if ends_with_chars(&h, &suffix) {
            string_from_range(&h, 0, h.len() - suffix.len())
        } else {
            host.to_owned()
        }
    }
}

/// The API `site` parameter of a host: `meta.` sites map to the meta site of their base.
pub open spec fn site_spec(host: Seq<char>) -> Seq<char> {
    if host.len() >= 5 && host.subrange(0, 5) == "meta."@ {
        let base = host.skip(5);
        if base == "stackexchange.com"@ { "meta.stackexchange"@ } else { "meta."@ + base_site_spec(base) }
    } else {
        base_site_spec(host)
    }
}

/// The API `site` parameter of a host.
pub fn site_parameter(host: &str) -> (r: String)
    ensures
        r@ == site_spec(host@),
{
    let h = chars_of(host);
    let meta = chars_of("meta.");
    proof {
        reveal_strlit("meta.");
    }
    if h.len() >= 5 && crate::text::starts_with_chars(&h, &meta) {
        let base = string_from_range(&h, 5, h.len());
        assert(base@ == host@.skip(5));
        if str_eq(base.as_str(), "stackexchange.com") {
            "meta.stackexchange".to_owned()
        } else {
            let mut r = "meta.".to_owned();
            let b = base_site_parameter(base.as_str());
            push_str(&mut r, b.as_str());
            r
        }
    } else {
        base_site_parameter(host)
    }
}

/// Whether the text is a number that `u64` holds.
pub open spec fn is_u64_text(s: Seq<char>) -> bool {
    crate::text::parse_unsigned_spec(s, u64::MAX as nat).is_some()
}

fn is_u64(s: &str) -> (r: bool)
    ensures
        r == is_u64_text(s@),
{
    parse_unsigned(&chars_of(s), u64::MAX).is_some()
}

/// Whether a URL is a StackExchange question: `/questions/{number}/…` on a network host.
pub open spec fn matches_spec(host: Option<Seq<char>>, path: Seq<char>) -> bool {
    let h = match host {
        Some(h) => h,
        None => seq![],
    };
    let segs = segments_spec(path);
    stackexchange_host_spec(h) && segs.len() >= 2 && segs[0] == "questions"@ && is_u64_text(segs[1])
}

/// Whether a URL is a StackExchange question.
pub fn matches(url: &UrlParts) -> (r: bool)
    ensures
        r == matches_spec(match url.host {
            Some(h) => Some(h@),
            None => None,
        }, url.path@),
{
    let host = match &url.host {
        Some(h) => h.clone(),
        None => String::new(),
    };
    if !is_stackexchange_host(host.as_str()) {
        return false;
    }
    let segs = crate::urls::path_segments(url.path.as_str());
    proof {
        if segs@.len() >= 2 {
            assert(views(segs@)[0] == segs@[0]@);
            assert(views(segs@)[1] == segs@[1]@);
        }
    }
    segs.len() >= 2 && str_eq(segs[0].as_str(), "questions") && is_u64(segs[1].as_str())
}

// ---------------------------------------------------------------------------
// HTML entities
// ---------------------------------------------------------------------------

/// The character an entity name stands for: the five named XML entities, or a decimal or
/// hexadecimal character reference.
pub open spec fn entity_char(name: Seq<char>) -> Option<char> {
    if name == "lt"@ {
        Some('<')
    } else if name == "gt"@ {
        Some('>')
    } else if name == "amp"@ {
        Some('&')
    } else if name == "quot"@ {
        Some('"')
    } else if name == "apos"@ {
        Some('\'')
    } else if name.len() > 0 && name[0] == '#' {
        let number = name.skip(1);
        let value = if number.len() > 0 && (number[0] == 'x' || number[0] == 'X') {
            parse_hex_spec(number.skip(1))
        } else {
            parse_unsigned_spec(number, u32::MAX as nat)
        };
        match value {
            Some(n) => if is_scalar(n) { Some(char_with_code(n)) } else { None },
            None => None,
        }
    } else {
        None
    }
}

/// `rem` with each `&name;` that names a character replaced by it; any other `&` stays.
pub open spec fn decode_rest(rem: Seq<char>) -> Seq<char>
    decreases rem.len(),
{
    match first_index(rem, '&') {
        None => rem,
        Some(p) => {
            proof {
                lemma_first_index_props(rem, '&');
            }
            let tail = rem.skip(p);
            proof {
                lemma_first_index_props(tail, ';');
            }
            let decoded = match first_index(tail, ';') {
                Some(e) => match entity_char(tail.subrange(1, e)) {
                    Some(c) => Some((c, e)),
                    None => None,
                },
                None => None,
            };
            match decoded {
                Some((c, e)) => rem.take(p) + seq![c] + decode_rest(tail.skip(e + 1)),
                None => rem.take(p) + seq!['&'] + decode_rest(tail.skip(1)),
            }
        },
    }
}

/// The character whose code is `n`.
pub open spec fn char_with_code(n: nat) -> char {
    choose|c: char| #[trigger] char_code(c) == n
}

/// The code of a character.
pub open spec fn char_code(c: char) -> nat {
    c as nat
}

proof fn lemma_char_with_code(c: char)
    ensures
        char_with_code(c as nat) == c,
{
    assert(char_code(c) == c as nat);
    let d = char_with_code(c as nat);
    assert(char_code(d) == c as nat);
}

/// Text without an `&` is left as it is.
pub proof fn law_decode_plain_text(s: Seq<char>)
    requires
        !s.contains('&'),
    ensures
        decode_rest(s) == s,
{
    lemma_first_index_props(s, '&');
    if let Some(k) = first_index(s, '&') {
        assert(s[k] == '&');
        assert(s.contains('&'));
    }
}

fn entity_char_exec(name: &Vec<char>) -> (r: Option<char>)
    ensures
        r == entity_char(name@),
{
    if chars_eq(name, &chars_of("lt")) {
        Some('<')
    } else if chars_eq(name, &chars_of("gt")) {
        Some('>')
    } else if chars_eq(name, &chars_of("amp")) {
        Some('&')
    } else if chars_eq(name, &chars_of("quot")) {
        Some('"')
    } else if chars_eq(name, &chars_of("apos")) {
        Some('\'')
    } else if name.len() > 0 && name[0] == '#' {
        let number = slice_chars(name, 1, name.len());
        assert(number@ == name@.skip(1));
        let value = if number.len() > 0 && (number[0] == 'x' || number[0] == 'X') {
            let hex = slice_chars(&number, 1, number.len());
            assert(hex@ == number@.skip(1));
            parse_hex(&hex)
        } else {
            match parse_unsigned(&number, u32::MAX as u64) {
                Some(n) => Some(n as u32),
                None => None,
            }
        };
        assert(value matches Some(n) ==> n < 0x1_0000_0000);
        match value {
            Some(n) => {
                let c = char_from_u32(n);
                proof {
                    if let Some(ch) = c {
                        lemma_char_with_code(ch);
                    }
                }
                c
            },
            None => None,
        }
    } else {
        None
    }
}

/// `value` with HTML character references decoded.
pub fn decode_entities(value: &str) -> (r: String)
    ensures
        r@ == decode_rest(value@),
{
    let v = chars_of(value);
    let mut out: Vec<char> = Vec::new();
    let mut pos: usize = 0;
    assert(v@.skip(0) == v@);
    loop
        invariant
            pos <= v.len(),
            v@ == value@,
            out@ + decode_rest(v@.skip(pos as int)) == decode_rest(v@),
        decreases v.len() - pos,
    {
        let ghost rem = v@.skip(pos as int);
        match find_char(&v, '&', pos) {
            None => {
                let mut rest = slice_chars(&v, pos, v.len());
                assert(rest@ == rem);
                out.append(&mut rest);
                return string_from_chars(&out);
            }
            Some(p) => {
                let ghost prel = p - pos;
                let ghost tail = rem.skip(prel);
                assert(tail == v@.skip(p as int));
                assert(rem.take(prel) == v@.subrange(pos as int, p as int));
                proof {
                    lemma_first_index_props(rem, '&');
                    lemma_first_index_props(tail, ';');
                }
                let mut before = slice_chars(&v, pos, p);
                let ghost o = out@;
                out.append(&mut before);
                let decoded = match find_char(&v, ';', p) {
                    Some(e) => {
                        assert(v@[p as int] == '&');
                        assert(e > p);
                        let name = slice_chars(&v, p + 1, e);
                        assert(name@ == tail.subrange(1, e - p));
                        match entity_char_exec(&name) {
                            Some(c) => Some((c, e)),
                            None => None,
                        }
                    }
                    None => None,
                };
                match decoded {
                    Some((c, e)) => {
                        out.push(c);
                        assert(tail.skip(e - p + 1) == v@.skip(e + 1));
                        assert(out@ + decode_rest(v@.skip(e + 1)) =~= o + (rem.take(prel) + seq![c] + decode_rest(tail.skip(e - p + 1))));
                        pos = e + 1;
                    }
                    None => {
                        out.push('&');
                        assert(tail.skip(1) == v@.skip(p + 1));
                        assert(out@ + decode_rest(v@.skip(p + 1)) =~= o + (rem.take(prel) + seq!['&'] + decode_rest(tail.skip(1))));
                        pos = p + 1;
                    }
                }
            }
        }
    }
}

// ---------------------------------------------------------------------------
// Answers
// ---------------------------------------------------------------------------

/// One answer, as rendered.
pub struct Answer {
    pub accepted: bool,
    pub score: i64,
    pub author: String,
    pub body: String,
}

/// The text of a question or answer: `body_markdown` when that member exists, else `body`,
/// decoded.
pub open spec fn markdown_body_spec(v: JsonValue) -> Seq<char> {
    let text = match json_get(v, "body_markdown"@) {
        Some(x) => json_str(Some(x)),
        None => json_str(json_get(v, "body"@)),
    };
    match text {
        Some(t) => decode_rest(t),
        None => seq![],
    }
}

/// The text of a question or answer.
pub fn markdown_body(value: &JsonValue) -> (r: String)
    ensures
        r@ == markdown_body_spec(*value),
{
    let member = match value.get("body_markdown") {
        Some(x) => Some(x),
        None => value.get("body"),
    };
    match member {
        Some(x) => match x.as_str() {
            Some(t) => decode_entities(t.as_str()),
            None => String::new(),
        },
        None => String::new(),
    }
}

/// The answer that an element of `items` describes.
pub open spec fn answer_matches(a: Answer, item: JsonValue) -> bool {
    &&& a.accepted == match json_bool(json_get(item, "is_accepted"@)) {
        Some(b) => b,
        None => false,
    }
    &&& a.score == match json_i64(json_get(item, "score"@)) {
        Some(n) => n,
        None => 0,
    }
    &&& a.author@ == match json_get(item, "owner"@) {
        Some(o) => match str_field(o, "display_name"@) {
            Some(d) => decode_rest(d),
            None => seq![],
        },
        None => seq![],
    }
    &&& a.body@ == markdown_body_spec(item)
}

fn parse_answer(item: &JsonValue) -> (a: Answer)
    ensures
        answer_matches(a, *item),
{
    let accepted = match item.get("is_accepted") {
        Some(x) => match x.as_bool() {
            Some(b) => b,
            None => false,
        },
        None => false,
    };
    let score = match item.get("score") {
        Some(x) => match x.as_i64() {
            Some(n) => n,
            None => 0,
        },
        None => 0,
    };
    let author = match item.get("owner") {
        Some(o) => match get_str(o, "display_name") {
            Some(d) => decode_entities(d.as_str()),
            None => String::new(),
        },
        None => String::new(),
    };
    Answer { accepted, score, author, body: markdown_body(item) }
}

/// The answers of an API response, in its order.
pub fn parse_answers(response: &JsonValue) -> (r: Vec<Answer>)
    ensures
        r@.len() == json_items(json_get(*response, "items"@)).len(),
        forall|i: int| 0 <= i < r@.len() ==> answer_matches(#[trigger] r@[i], json_items(json_get(*response, "items"@))[i]),
{
    let items = get_items(response, "items");
    let mut out: Vec<Answer> = Vec::new();
    let mut i: usize = 0;
    while i < items.len()
        invariant
            i <= items.len(),
            items@ == json_items(json_get(*response, "items"@)),
            out@.len() == i,
            forall|j: int| 0 <= j < i ==> answer_matches(#[trigger] out@[j], items@[j]),
        decreases items.len() - i,
    {
        out.push(parse_answer(&items[i]));
        i += 1;
    }
    out
}

/// `a` goes before `b`: accepted answers first, then higher scores.
pub open spec fn answer_before(a: Answer, b: Answer) -> bool {
    (a.accepted && !b.accepted) || (a.accepted == b.accepted && a.score > b.score)
}

/// `x` placed into `sorted` after every answer it does not go before.
pub open spec fn insert_answer(sorted: Seq<Answer>, x: Answer) -> Seq<Answer>
    decreases sorted.len(),
{
    if sorted.len() == 0 {
        seq![x]
    } else if answer_before(x, sorted.last()) {
        insert_answer(sorted.drop_last(), x).push(sorted.last())
    } else {
        sorted.push(x)
    }
}

/// The stable sort of the answers: accepted first, then by score, highest first; answers
/// that tie keep their order.
pub open spec fn sort_answers_spec(s: Seq<Answer>) -> Seq<Answer>
    decreases s.len(),
{
    if s.len() == 0 {
        seq![]
    } else {
        insert_answer(sort_answers_spec(s.drop_last()), s.last())
    }
}

proof fn lemma_insert_at(sorted: Seq<Answer>, x: Answer, j: int)
    requires
        0 <= j <= sorted.len(),
        forall|k: int| j <= k < sorted.len() ==> answer_before(x, #[trigger] sorted[k]),
        j > 0 ==> !answer_before(x, sorted[j - 1]),
    ensures
        insert_answer(sorted, x) == sorted.insert(j, x),
    decreases sorted.len(),
{
    if sorted.len() == 0 {
        assert(sorted.insert(0, x) =~= seq![x]);
    } else if j == sorted.len() {
        assert(sorted.insert(j, x) =~= sorted.push(x));
    } else {
        let t = sorted.drop_last();
        assert(answer_before(x, sorted[sorted.len() - 1]));
        assert forall|k: int| j <= k < t.len() implies answer_before(x, #[trigger] t[k]) by {
            assert(t[k] == sorted[k]);
        }
        if j > 0 {
            assert(t[j - 1] == sorted[j - 1]);
        }
        lemma_insert_at(t, x, j);
        assert(t.insert(j, x).push(sorted.last()) =~= sorted.insert(j, x));
    }
}

/// No answer goes before one that precedes it.
pub open spec fn answers_sorted(s: Seq<Answer>) -> bool {
    forall|i: int, j: int| 0 <= i < j < s.len() ==> !answer_before(#[trigger] s[j], #[trigger] s[i])
}

proof fn lemma_insert_answer_sorted(sorted: Seq<Answer>, x: Answer)
    requires
        answers_sorted(sorted),
    ensures
        answers_sorted(insert_answer(sorted, x)),
        insert_answer(sorted, x).to_multiset() == sorted.to_multiset().insert(x),
    decreases sorted.len(),
{
    broadcast use vstd::seq_lib::group_to_multiset_ensures;
    if sorted.len() == 0 {
        assert(seq![x].to_multiset() =~= Seq::<Answer>::empty().to_multiset().insert(x)) by {
            assert(seq![x] == Seq::<Answer>::empty().push(x));
        }
    } else {
        let init = sorted.drop_last();
        let last = sorted.last();
        assert(sorted == init.push(last));
        assert forall|i: int, j: int| 0 <= i < j < init.len() implies !answer_before(#[trigger] init[j], #[trigger] init[i]) by {
            assert(init[i] == sorted[i] && init[j] == sorted[j]);
        }
        if answer_before(x, last) {
            lemma_insert_answer_sorted(init, x);
            let m = insert_answer(init, x);
            let r = m.push(last);
            assert forall|k: int| 0 <= k < m.len() implies !answer_before(last, #[trigger] m[k]) by {
                assert(m.to_multiset().count(m[k]) > 0);
                if m[k] != x {
                    assert(init.to_multiset().count(m[k]) > 0);
                    assert(init.contains(m[k]));
                    let t = choose|t: int| 0 <= t < init.len() && init[t] == m[k];
                    assert(sorted[t] == m[k]);
                    assert(!answer_before(sorted[sorted.len() - 1], sorted[t]));
                }
            }
            assert forall|i: int, j: int| 0 <= i < j < r.len() implies !answer_before(#[trigger] r[j], #[trigger] r[i]) by {
                if j == r.len() - 1 {
                    assert(r[j] == last);
                    assert(r[i] == m[i]);
                } else {
                    assert(r[i] == m[i] && r[j] == m[j]);
                }
            }
            assert(r.to_multiset() =~= sorted.to_multiset().insert(x));
        } else {
            let r = sorted.push(x);
            assert forall|i: int, j: int| 0 <= i < j < r.len() implies !answer_before(#[trigger] r[j], #[trigger] r[i]) by {
                if j == r.len() - 1 {
                    assert(r[j] == x);
                    assert(r[i] == sorted[i]);
                    if i < sorted.len() - 1 {
                        assert(!answer_before(sorted[sorted.len() - 1], sorted[i]));
                    }
                } else {
                    assert(r[i] == sorted[i] && r[j] == sorted[j]);
                }
            }
        }
    }
}

/// Sorting answers puts accepted answers first and then higher scores first, and keeps
/// every answer: the result is sorted and holds the same answers.
pub proof fn law_sorted_answers(s: Seq<Answer>)
    ensures
        answers_sorted(sort_answers_spec(s)),
        sort_answers_spec(s).to_multiset() == s.to_multiset(),
    decreases s.len(),
{
    broadcast use vstd::seq_lib::group_to_multiset_ensures;
    if s.len() > 0 {
        law_sorted_answers(s.drop_last());
        lemma_insert_answer_sorted(sort_answers_spec(s.drop_last()), s.last());
        assert(s == s.drop_last().push(s.last()));
    }
}

/// The sorted answers show accepted answers first and, among answers equally accepted, the
/// higher scores first, so the first answers of a page are the best ones; no answer is lost
/// or added.
pub proof fn law_answers_best_first(s: Seq<Answer>)
    ensures
        forall|i: int, j: int| 0 <= i < j < sort_answers_spec(s).len()
            ==> (#[trigger] sort_answers_spec(s)[i]).accepted || !(#[trigger] sort_answers_spec(s)[j]).accepted,
        forall|i: int, j: int| 0 <= i < j < sort_answers_spec(s).len()
            && (#[trigger] sort_answers_spec(s)[i]).accepted == (#[trigger] sort_answers_spec(s)[j]).accepted
            ==> sort_answers_spec(s)[i].score >= sort_answers_spec(s)[j].score,
        sort_answers_spec(s).to_multiset() == s.to_multiset(),
{
    law_sorted_answers(s);
    let r = sort_answers_spec(s);
    assert forall|i: int, j: int| 0 <= i < j < r.len() implies (#[trigger] r[i]).accepted || !(#[trigger] r[j]).accepted by {
        assert(!answer_before(r[j], r[i]));
    }
    assert forall|i: int, j: int| 0 <= i < j < r.len() && (#[trigger] r[i]).accepted == (#[trigger] r[j]).accepted
        implies r[i].score >= r[j].score by {
        assert(!answer_before(r[j], r[i]));
    }
}

fn before_exec(a: &Answer, b: &Answer) -> (r: bool)
    ensures
        r == answer_before(*a, *b),
{
    (a.accepted && !b.accepted) || (a.accepted == b.accepted && a.score > b.score)
}

/// Sorts the answers: accepted first, then by score, highest first; ties keep their order.
pub fn sort_answers(answers: Vec<Answer>) -> (r: Vec<Answer>)
    ensures
        r@ == sort_answers_spec(answers@),
{
    let ghost orig = answers@;
    let mut out: Vec<Answer> = Vec::new();
    for x in it: answers.into_iter()
        invariant
            orig == it.seq(),
            out@ == sort_answers_spec(orig.take(it.index() as int)),
    {
        assert(orig.take(it.index() + 1).drop_last() == orig.take(it.index() as int));
        assert(orig.take(it.index() + 1).last() == x);
        let mut j = out.len();
        while j > 0 && before_exec(&x, &out[j - 1])
            invariant
                j <= out.len(),
                forall|k: int| j <= k < out@.len() ==> answer_before(x, #[trigger] out@[k]),
            decreases j,
        {
            j -= 1;
        }
        proof {
            lemma_insert_at(out@, x, j as int);
        }
        out.insert(j, x);
    }
    assert(orig.take(orig.len() as int) == orig);
    out
}

/// One rendered answer.
pub open spec fn answer_block(a: Answer) -> Seq<char> {
    if a.accepted {
        "## Accepted answer (score: "@ + signed_decimal_spec(a.score as int) + ")\n\n"@ + a.body@ + "\n\n"@
    } else {
        "## Answer by "@ + a.author@ + " (score: "@ + signed_decimal_spec(a.score as int) + ")\n\n"@
            + a.body@ + "\n\n"@
    }
}

pub open spec fn answer_blocks(s: Seq<Answer>) -> Seq<char>
    decreases s.len(),
{
    if s.len() == 0 {
        seq![]
    } else {
        answer_blocks(s.drop_last()) + answer_block(s.last())
    }
}

/// The page of a question and its answers: the first `max_answers` answers, and how many
/// more there were.
pub open spec fn render_spec(question: JsonValue, answers: Seq<Answer>, max_answers: nat) -> Seq<char> {
    let title = match str_field(question, "title"@) {
        Some(t) => decode_rest(t),
        None => seq![],
    };
    let shown = if answers.len() <= max_answers { answers } else { answers.take(max_answers as int) };
    "# "@ + title + "\n\n"@ + markdown_body_spec(question) + "\n\n---\n\n"@ + answer_blocks(shown) + (
    if answers.len() > max_answers {
        "_"@ + decimal_spec((answers.len() - max_answers) as nat) + " additional answers were omitted._\n"@
    } else {
        seq![]
    })
}

/// Renders a question and its answers as Markdown.
pub fn render(question: &JsonValue, answers: &Vec<Answer>, max_answers: usize) -> (r: String)
    ensures
        r@ == render_spec(*question, answers@, max_answers as nat),
{
    let title = match get_str(question, "title") {
        Some(t) => decode_entities(t.as_str()),
        None => String::new(),
    };
    let mut output = String::new();
    push_str(&mut output, "# ");
    push_str(&mut output, title.as_str());
    push_str(&mut output, "\n\n");
    let body = markdown_body(question);
    push_str(&mut output, body.as_str());
    push_str(&mut output, "\n\n---\n\n");
    let ghost head = output@;
    let shown = if answers.len() <= max_answers { answers.len() } else { max_answers };
    let mut i: usize = 0;
    while i < shown
        invariant
            i <= shown <= answers.len(),
            output@ == head + answer_blocks(answers@.take(i as int)),
        decreases shown - i,
    {
        assert(answers@.take(i + 1).drop_last() == answers@.take(i as int));
        assert(answers@.take(i + 1).last() == answers@[i as int]);
        let a = &answers[i];
        let score = signed_decimal_string(a.score);
        if a.accepted {
            push_str(&mut output, "## Accepted answer (score: ");
            push_str(&mut output, score.as_str());
            push_str(&mut output, ")\n\n");
            push_str(&mut output, a.body.as_str());
            push_str(&mut output, "\n\n");
        } else {
            push_str(&mut output, "## Answer by ");
            push_str(&mut output, a.author.as_str());
            push_str(&mut output, " (score: ");
            push_str(&mut output, score.as_str());
            push_str(&mut output, ")\n\n");
            push_str(&mut output, a.body.as_str());
            push_str(&mut output, "\n\n");
        }
        i += 1;
    }
    proof {
        if answers@.len() <= max_answers {
            assert(answers@.take(answers@.len() as int) == answers@);
        }
    }
    if answers.len() > max_answers {
        push_str(&mut output, "_");
        let d = decimal_string((answers.len() - max_answers) as u64);
        push_str(&mut output, d.as_str());
        push_str(&mut output, " additional answers were omitted._\n");
    }
    output
}

// ---------------------------------------------------------------------------
// Requests and the page
// ---------------------------------------------------------------------------

/// The first path segment that is a number.
pub open spec fn first_number(segs: Seq<Seq<char>>) -> Option<Seq<char>>
    decreases segs.len(),
{
    if segs.len() == 0 {
        None
    } else if is_u64_text(segs[0]) {
        Some(segs[0])
    } else {
        first_number(segs.drop_first())
    }
}

/// The filter that asks the API for Markdown bodies.
pub open spec fn api_filter() -> Seq<char> {
    "!X-cWn5YrCQCchzB5B4*yqi6eO0BYWbSmsTE.VZm"@
}

/// The API request for a question and the one for its answers, sorted by votes, one more
/// than will be shown (at most a hundred).
pub open spec fn requests_spec(host: Seq<char>, path: Seq<char>, max_answers: nat) -> Option<((Seq<char>, Seq<(Seq<char>, Seq<char>)>), (Seq<char>, Seq<(Seq<char>, Seq<char>)>))> {
    match first_number(segments_spec(path)) {
        Some(id) => {
            let site = site_spec(host);
            let pagesize = if max_answers + 1 <= 100 { (max_answers + 1) as nat } else { 100 };
            Some((
                ("https://api.stackexchange.com/2.3/questions/"@ + id, seq![("site"@, site), ("filter"@, api_filter())]),
                ("https://api.stackexchange.com/2.3/questions/"@ + id + "/answers"@, seq![
                    ("site"@, site),
                    ("filter"@, api_filter()),
                    ("order"@, "desc"@),
                    ("sort"@, "votes"@),
                    ("pagesize"@, decimal_spec(pagesize)),
                ]),
            ))
        },
        None => None,
    }
}

fn first_number_index(segs: &Vec<String>) -> (r: Option<usize>)
    ensures
        match r {
            Some(i) => i < segs.len() && first_number(views(segs@)) == Some(segs@[i as int]@),
            None => first_number(views(segs@)).is_none(),
        },
{
    let ghost sv = views(segs@);
    let mut i: usize = 0;
    assert(sv.skip(0) == sv);
    while i < segs.len()
        invariant
            i <= segs.len(),
            sv == views(segs@),
            first_number(sv) == first_number(sv.skip(i as int)),
        decreases segs.len() - i,
    {
        assert(sv.skip(i as int)[0] == segs@[i as int]@);
        assert(sv.skip(i as int).drop_first() == sv.skip(i + 1));
        if is_u64(segs[i].as_str()) {
            return Some(i);
        }
        i += 1;
    }
    assert(sv.skip(i as int).len() == 0);
    None
}

/// The two API URLs for a question page.
pub fn request_urls(url: &UrlParts, max_answers: usize) -> (r: Result<(String, String), HybridSearchError>)
    ensures
        ({
            let host = match url.host {
                Some(h) => h@,
                None => seq![],
            };
            match requests_spec(host, url.path@, max_answers as nat) {
                Some((q, a)) => match (url_with_query_spec(q.0, q.1), url_with_query_spec(a.0, a.1)) {
                    (Ok(qu), Ok(au)) => r matches Ok(p) && p.0@ == qu && p.1@ == au,
                    _ => r is Err,
                },
                None => r matches Err(HybridSearchError::Parse(m)) && m@ == "StackExchange question ID is missing"@,
            }
        }),
{
    let host = match &url.host {
        Some(h) => h.clone(),
        None => String::new(),
    };
    let segs = crate::urls::path_segments(url.path.as_str());
    let id = match first_number_index(&segs) {
        Some(i) => segs[i].clone(),
        None => {
            return Err(HybridSearchError::Parse("StackExchange question ID is missing".to_owned()));
        }
    };
    let site = site_parameter(host.as_str());
    let pagesize: usize = if max_answers < 100 { max_answers + 1 } else { 100 };
    let mut question_base = "https://api.stackexchange.com/2.3/questions/".to_owned();
    push_str(&mut question_base, id.as_str());
    let mut answer_base = question_base.clone();
    push_str(&mut answer_base, "/answers");
    let mut qp: Vec<(String, String)> = Vec::new();
    qp.push(("site".to_owned(), site.clone()));
    qp.push(("filter".to_owned(), "!X-cWn5YrCQCchzB5B4*yqi6eO0BYWbSmsTE.VZm".to_owned()));
    let mut ap: Vec<(String, String)> = Vec::new();
    ap.push(("site".to_owned(), site));
    ap.push(("filter".to_owned(), "!X-cWn5YrCQCchzB5B4*yqi6eO0BYWbSmsTE.VZm".to_owned()));
    ap.push(("order".to_owned(), "desc".to_owned()));
    ap.push(("sort".to_owned(), "votes".to_owned()));
    ap.push(("pagesize".to_owned(), decimal_string(pagesize as u64)));
    assert(pair_views(qp@) =~= seq![("site"@, site_spec(host@)), ("filter"@, api_filter())]);
    assert(pair_views(ap@) =~= seq![
        ("site"@, site_spec(host@)),
        ("filter"@, api_filter()),
        ("order"@, "desc"@),
        ("sort"@, "votes"@),
        ("pagesize"@, decimal_spec(if max_answers + 1 <= 100 { (max_answers + 1) as nat } else { 100 })),
    ]);
    let q = url_with_query(question_base.as_str(), &qp);
    let a = url_with_query(answer_base.as_str(), &ap);
    match (q, a) {
        (Ok(qu), Ok(au)) => Ok((qu, au)),
        (Err(e), _) => Err(HybridSearchError::Parse(e)),
        (_, Err(e)) => Err(HybridSearchError::Parse(e)),
    }
}

/// The page of a question: the first element of the question response's `items`, and the
/// answers of the answer response sorted for display; a failed answer request shows none.
pub fn page_from(
    question: Result<JsonValue, HybridSearchError>,
    answers: Result<JsonValue, HybridSearchError>,
    max_answers: usize,
) -> (r: Result<SpecialistPage, HybridSearchError>)
    ensures
        match question {
            Err(e) => r == Err::<SpecialistPage, _>(e),
            Ok(q) => {
                let items = json_items(json_get(q, "items"@));
                if items.len() == 0 {
                    r matches Err(HybridSearchError::Provider(m)) && m@ == "StackExchange returned no question"@
                } else {
                    r matches Ok(p) && p.source_type@ == "stackexchange"@ && exists|parsed: Seq<Answer>| {
                        &&& p.content@ == render_spec(items[0], sort_answers_spec(parsed), max_answers as nat)
                        &&& match answers {
                            Ok(a) => parsed.len() == json_items(json_get(a, "items"@)).len()
                                && forall|i: int| 0 <= i < parsed.len() ==> answer_matches(#[trigger] parsed[i], json_items(json_get(a, "items"@))[i]),
                            Err(_) => parsed.len() == 0,
                        }
                    }
                }
            },
        },
{
    let q = match question {
        Ok(q) => q,
        Err(e) => return Err(e),
    };
    let items = get_items(&q, "items");
    if items.len() == 0 {
        return Err(HybridSearchError::Provider("StackExchange returned no question".to_owned()));
    }
    let parsed = match &answers {
        Ok(a) => parse_answers(a),
        Err(_) => Vec::new(),
    };
    let ghost pv = parsed@;
    let sorted = sort_answers(parsed);
    let content = render(&items[0], &sorted, max_answers);
    Ok(SpecialistPage { content, source_type: "stackexchange".to_owned() })
}

} // verus!
