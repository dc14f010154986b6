use vstd::prelude::*;

use crate::model::{source_views, Source, SourceView};
use crate::text::{chars_of, decimal_spec, decimal_string, push_str, string_from_range};

verus! {

// ---------------------------------------------------------------------------
// The size of a source in a response
// ---------------------------------------------------------------------------

/// A lowercase hexadecimal digit.
pub open spec fn hex_digit_char(d: nat) -> char {
    if d < 10 { (('0' as u32) + d) as char } else { (('a' as u32) + d - 10) as char }
}

/// How JSON text writes one character of a string: a quote, a backslash and the control
/// characters are escaped, the five with short forms by them and the others as `\u00XX`;
/// every other character stands for itself.
pub open spec fn json_escape(c: char) -> Seq<char> {
    let u = c as u32;
    if c == '"' {
        seq!['\\', '"']
    } else if c == '\\' {
        seq!['\\', '\\']
    } else if u == 0x08 {
        seq!['\\', 'b']
    } else if u == 0x09 {
        seq!['\\', 't']
    } else if u == 0x0a {
        seq!['\\', 'n']
    } else if u == 0x0c {
        seq!['\\', 'f']
    } else if u == 0x0d {
        seq!['\\', 'r']
    } else if u < 0x20 {
        seq!['\\', 'u', '0', '0', hex_digit_char((u / 16) as nat), hex_digit_char((u % 16) as nat)]
    } else {
        seq![c]
    }
}

/// The characters of a string, each written as JSON text writes it.
pub open spec fn json_escaped(s: Seq<char>) -> Seq<char>
    decreases s.len(),
{
    if s.len() == 0 {
        seq![]
    } else {
        json_escaped(s.drop_last()) + json_escape(s.last())
    }
}

/// The JSON text of a string: its escaped characters between quotes.
pub open spec fn json_quoted(s: Seq<char>) -> Seq<char> {
    seq!['"'] + json_escaped(s) + seq!['"']
}

/// `serde_json::to_string` on a string slice, which cannot fail for a string: the string
/// between quotes, with quotes, backslashes and control characters escaped (serde_json's
/// `format_escaped_str`).
#[verifier::external_body]
fn json_quote(s: &str) -> (r: String)
    ensures
        r@ == json_quoted(s@),
{
    serde_json::to_string(s).unwrap_or_default()
}

/// Addition that stops at the largest `usize`.
pub open spec fn sat_add(a: nat, b: nat) -> nat {
    if a + b > usize::MAX { usize::MAX as nat } else { a + b }
}

/// Subtraction that stops at zero.
pub open spec fn sat_sub(a: nat, b: nat) -> nat {
    if a >= b { (a - b) as nat } else { 0 }
}

/// The sum of `parts`, added left to right, stopping at the largest `usize`.
pub open spec fn sat_sum(parts: Seq<nat>) -> nat
    decreases parts.len(),
{
    if parts.len() == 0 {
        0
    } else {
        sat_add(sat_sum(parts.drop_last()), parts.last())
    }
}

pub open spec fn optional_parts(key_len: nat, v: Option<Seq<char>>) -> Seq<nat> {
    match v {
        Some(x) => seq![key_len, json_quoted(x).len()],
        None => seq![],
    }
}

/// The pieces of a source's JSON text: `{"url":…,"provider":…` and each optional member
/// that is present, then `}`; the fixed pieces are counted with the keys and punctuation
/// around them.
pub open spec fn weight_parts(s: SourceView) -> Seq<nat> {
    seq![8nat, json_quoted(s.url).len(), 12nat, json_quoted(s.provider).len()]
        + optional_parts(9, s.title) + optional_parts(15, s.description)
        + optional_parts(18, s.published_date) + optional_parts(11, s.content)
}

/// The number of characters of a source's JSON text.
pub open spec fn weight_spec(s: SourceView) -> nat {
    sat_sum(weight_parts(s))
}

/// The weights of the sources, added up.
pub open spec fn weights_total(s: Seq<SourceView>) -> nat
    decreases s.len(),
{
    if s.len() == 0 {
        0
    } else {
        sat_add(weights_total(s.drop_last()), weight_spec(s.last()))
    }
}

fn quoted_len(s: &str) -> (n: usize)
    ensures
        n == json_quoted(s@).len(),
{
    let q = json_quote(s);
    chars_of(q.as_str()).len()
}

fn add_parts(acc: usize, key_len: usize, v: &Option<String>, Ghost(before): Ghost<Seq<nat>>) -> (r: usize)
    requires
        acc == sat_sum(before),
    ensures
        r == sat_sum(before + optional_parts(key_len as nat, match *v {
            Some(x) => Some(x@),
            None => None,
        })),
{
    match v {
        Some(x) => {
            let a = acc.saturating_add(key_len);
            let q = quoted_len(x.as_str());
            let ghost p = before + seq![key_len as nat, json_quoted(x@).len()];
            assert(p.drop_last().drop_last() == before);
            assert(p.drop_last().last() == key_len as nat);
            assert(p.last() == json_quoted(x@).len());
            assert(sat_sum(p.drop_last()) == sat_add(sat_sum(before), key_len as nat));
            assert(a == sat_sum(p.drop_last()));
            let r = a.saturating_add(q);
            assert(r == sat_sum(p));
            r
        }
        None => {
            assert(before + Seq::<nat>::empty() == before);
            acc
        }
    }
}

/// The number of characters of a source's JSON text.
pub fn source_weight(s: &Source) -> (w: usize)
    ensures
        w == weight_spec(s@),
{
    let ghost p0 = seq![8nat];
    assert(p0.drop_last() =~= Seq::<nat>::empty());
    assert(sat_sum(p0.drop_last()) == 0);
    let mut w: usize = 8;
    assert(w == sat_sum(p0));
    let ghost p1 = p0.push(json_quoted(s.url@).len());
    assert(p1.drop_last() == p0);
    w = w.saturating_add(quoted_len(s.url.as_str()));
    assert(w == sat_sum(p1));
    let ghost p2 = p1.push(12nat);
    assert(p2.drop_last() == p1);
    w = w.saturating_add(12);
    assert(w == sat_sum(p2));
    let ghost p3 = p2.push(json_quoted(s.provider@).len());
    assert(p3.drop_last() == p2);
    w = w.saturating_add(quoted_len(s.provider.as_str()));
    assert(w == sat_sum(p3));
    assert(p3 == seq![8nat, json_quoted(s@.url).len(), 12nat, json_quoted(s@.provider).len()]);
    w = add_parts(w, 9, &s.title, Ghost(p3));
    let ghost p4 = p3 + optional_parts(9, s@.title);
    w = add_parts(w, 15, &s.description, Ghost(p4));
    let ghost p5 = p4 + optional_parts(15, s@.description);
    w = add_parts(w, 18, &s.published_date, Ghost(p5));
    let ghost p6 = p5 + optional_parts(18, s@.published_date);
    w = add_parts(w, 11, &s.content, Ghost(p6));
    w
}

// ---------------------------------------------------------------------------
// Trimming a response to a budget
// ---------------------------------------------------------------------------

/// The number of characters of a source's inline content.
pub open spec fn content_len(s: SourceView) -> nat {
    match s.content {
        Some(c) => c.len(),
        None => 0,
    }
}

/// The note that stands in for trimmed content and says where the full text is.
pub open spec fn note_spec(message: Seq<char>, url: Seq<char>, session_id: Seq<char>, index: nat) -> Seq<char> {
    "_["@ + message + ": response budget reached — full text via web_fetch(\""@ + url
        + "\") or get_sources(session_id=\""@ + session_id + "\", offset="@ + decimal_spec(index)
        + ", limit=1)]_"@
}

/// The state of a trimming pass: the sources and the running total.
pub type Trim = (Seq<SourceView>, nat);

/// One source of the backward pass: its content is cut to close the gap with a note, or
/// replaced by a note; content that is absent or no longer than the note is left alone.
pub open spec fn trim_step(st: Trim, idx: int, budget: nat, sid: Seq<char>, offset: nat) -> Trim {
    let (srcs, total) = st;
    let s = srcs[idx];
    let cl = content_len(s);
    let omitted = note_spec("inline content omitted"@, s.url, sid, offset + idx as nat);
    if cl == 0 || cl <= omitted.len() {
        st
    } else {
        let overshoot = sat_sub(total, budget);
        let truncated = note_spec("truncated"@, s.url, sid, offset + idx as nat);
        let note_length = truncated.len() + 2;
        if cl > overshoot + note_length {
            let keep = (cl - overshoot - note_length) as int;
            let content = s.content.unwrap().take(keep) + "\n\n"@ + truncated;
            (srcs.update(idx, SourceView { content: Some(content), ..s }), sat_sub(total, overshoot))
        } else {
            (srcs.update(idx, SourceView { content: Some(omitted), ..s }), sat_add(sat_sub(total, cl), omitted.len()))
        }
    }
}

/// The backward pass over the sources below `i`, which stops once the total fits.
pub open spec fn trim_pass(st: Trim, i: nat, budget: nat, sid: Seq<char>, offset: nat) -> Trim
    decreases i,
{
    if i == 0 || st.1 <= budget {
        st
    } else {
        trim_pass(trim_step(st, i - 1, budget, sid, offset), (i - 1) as nat, budget, sid, offset)
    }
}

/// Drops trailing sources, but never the first, while the total is over the budget.
pub open spec fn pop_pass(st: Trim, budget: nat) -> Trim
    decreases st.0.len(),
{
    if st.1 > budget && st.0.len() > 1 {
        pop_pass((st.0.drop_last(), sat_sub(st.1, weight_spec(st.0.last()))), budget)
    } else {
        st
    }
}

/// The size of a response: the answer and every source.
pub open spec fn response_total(answer_chars: nat, srcs: Seq<SourceView>) -> nat {
    sat_add(answer_chars, weights_total(srcs))
}

/// The sources of a response after trimming it to `budget`.
pub open spec fn budget_spec(answer_chars: nat, srcs: Seq<SourceView>, budget: nat, sid: Seq<char>, offset: nat) -> Seq<SourceView> {
    let total = response_total(answer_chars, srcs);
    if total <= budget {
        srcs
    } else {
        pop_pass(trim_pass((srcs, total), srcs.len(), budget, sid, offset), budget).0
    }
}

fn note(message: &str, url: &str, session_id: &str, index: usize) -> (r: String)
    ensures
        r@ == note_spec(message@, url@, session_id@, index as nat),
{
    let mut n = String::new();
    push_str(&mut n, "_[");
    push_str(&mut n, message);
    push_str(&mut n, ": response budget reached — full text via web_fetch(\"");
    push_str(&mut n, url);
    push_str(&mut n, "\") or get_sources(session_id=\"");
    push_str(&mut n, session_id);
    push_str(&mut n, "\", offset=");
    let d = decimal_string(index as u64);
    push_str(&mut n, d.as_str());
    push_str(&mut n, ", limit=1)]_");
    n
}

/// The total of the weights of `srcs`.
fn total_weight(srcs: &Vec<Source>) -> (t: usize)
    ensures
        t == weights_total(source_views(srcs@)),
{
    let ghost sv = source_views(srcs@);
    let mut t: usize = 0;
    let mut i: usize = 0;
    while i < srcs.len()
        invariant
            i <= srcs.len(),
            sv == source_views(srcs@),
            t == weights_total(sv.subrange(0, i as int)),
        decreases srcs.len() - i,
    {
        assert(sv.subrange(0, i + 1).drop_last() == sv.subrange(0, i as int));
        assert(sv.subrange(0, i + 1).last() == srcs@[i as int]@);
        t = t.saturating_add(source_weight(&srcs[i]));
        i += 1;
    }
    assert(sv.subrange(0, sv.len() as int) == sv);
    t
}

/// One step of the backward pass, on the source at `idx`.
fn trim_one(sources: &mut Vec<Source>, total: usize, idx: usize, budget: usize, session_id: &str, source_offset: usize) -> (r: usize)
    requires
        idx < old(sources).len(),
        source_offset + old(sources).len() <= usize::MAX,
    ensures
        (source_views(final(sources)@), r as nat) == trim_step(
            (source_views(old(sources)@), total as nat),
            idx as int,
            budget as nat,
            session_id@,
            source_offset as nat,
        ),
        final(sources)@.len() == old(sources)@.len(),
{
    let ghost st = (source_views(sources@), total as nat);
    let ghost s = source_views(sources@)[idx as int];
    assert(s == sources@[idx as int]@);
    let content_length = match &sources[idx].content {
        Some(c) => chars_of(c.as_str()).len(),
        None => 0,
    };
    let source_index = source_offset + idx;
    let omitted = note("inline content omitted", sources[idx].url.as_str(), session_id, source_index);
    let omitted_length = chars_of(omitted.as_str()).len();
    if content_length == 0 || content_length <= omitted_length {
        return total;
    }
    let overshoot = total.saturating_sub(budget);
    let truncated = note("truncated", sources[idx].url.as_str(), session_id, source_index);
    let note_length = chars_of(truncated.as_str()).len().saturating_add(2);
    let ghost truncated_spec_len = truncated@.len() + 2;
    if content_length > overshoot.saturating_add(note_length) {
        let keep = content_length - overshoot - note_length;
        let mut new_content = match &sources[idx].content {
            Some(c) => string_from_range(&chars_of(c.as_str()), 0, keep),
            None => String::new(),
        };
        push_str(&mut new_content, "\n\n");
        push_str(&mut new_content, truncated.as_str());
        let ghost nc = new_content@;
        sources[idx].content = Some(new_content);
        assert(source_views(sources@) =~= st.0.update(idx as int, SourceView { content: Some(nc), ..s }));
        total.saturating_sub(overshoot)
    } else {
        let ghost oc = omitted@;
        sources[idx].content = Some(omitted);
        assert(source_views(sources@) =~= st.0.update(idx as int, SourceView { content: Some(oc), ..s }));
        total.saturating_sub(content_length).saturating_add(omitted_length)
    }
}

/// Trims a response to `budget` characters, counting the answer and the JSON text of each
/// source: inline content is cut or replaced by a note, from the last source backwards,
/// and then trailing sources are dropped, never the first. Each note says how to get the
/// full text (`session_id` and `source_offset` locate a source in the cached session).
/// Returns whether the response was over the budget.
pub fn apply_response_budget(
    answer: Option<&str>,
    sources: &mut Vec<Source>,
    budget: usize,
    session_id: &str,
    source_offset: usize,
) -> (trimmed: bool)
    requires
        source_offset + old(sources).len() <= usize::MAX,
    ensures
        ({
            let answer_chars = match answer {
                Some(a) => a@.len(),
                None => 0,
            };
            &&& trimmed == (response_total(answer_chars, source_views(old(sources)@)) > budget)
            &&& final(sources)@.len() <= old(sources)@.len()
            &&& source_views(final(sources)@) == budget_spec(
                answer_chars,
                source_views(old(sources)@),
                budget as nat,
                session_id@,
                source_offset as nat,
            )
        }),
{
    let answer_chars: usize = match answer {
        Some(a) => chars_of(a).len(),
        None => 0,
    };
    let ghost orig = source_views(sources@);
    let weights = total_weight(sources);
    let mut total = answer_chars.saturating_add(weights);
    if total <= budget {
        return false;
    }
    let ghost goal = trim_pass((orig, total as nat), orig.len(), budget as nat, session_id@, source_offset as nat);
    let mut index = sources.len();
    while index > 0
        invariant_except_break
            index <= sources@.len(),
            sources@.len() == orig.len(),
            source_offset + sources@.len() <= usize::MAX,
            trim_pass((source_views(sources@), total as nat), index as nat, budget as nat, session_id@, source_offset as nat) == goal,
        ensures
            (source_views(sources@), total as nat) == goal,
            sources@.len() == orig.len(),
        decreases index,
    {
        if total <= budget {
            break;
        }
        index -= 1;
        total = trim_one(sources, total, index, budget, session_id, source_offset);
    }
    let ghost goal2 = pop_pass(goal, budget as nat);
    proof {
        lemma_pop_pass_len(goal, budget as nat);
    }
    while total > budget && sources.len() > 1
        invariant
            pop_pass((source_views(sources@), total as nat), budget as nat) == goal2,
            sources@.len() <= orig.len(),
        decreases sources.len(),
    {
        let ghost before = source_views(sources@);
        match sources.pop() {
            Some(s) => {
                assert(source_views(sources@) =~= before.drop_last());
                assert(before.last() == s@);
                total = total.saturating_sub(source_weight(&s));
            }
            None => {}
        }
    }
    true
}

pub proof fn lemma_pop_pass_len(st: Trim, budget: nat)
    ensures
        pop_pass(st, budget).0.len() <= st.0.len(),
        st.0.len() >= 1 ==> pop_pass(st, budget).0.len() >= 1,
    decreases st.0.len(),
{
    if st.1 > budget && st.0.len() > 1 {
        lemma_pop_pass_len((st.0.drop_last(), sat_sub(st.1, weight_spec(st.0.last()))), budget);
    }
}

/// `b` is `a` with, at most, other inline content.
pub open spec fn same_but_content(a: SourceView, b: SourceView) -> bool {
    &&& b.url == a.url
    &&& b.provider == a.provider
    &&& b.title == a.title
    &&& b.description == a.description
    &&& b.published_date == a.published_date
}

/// The sources of `b` are the first sources of `a`, each with, at most, other content.
pub open spec fn kept_prefix(a: Seq<SourceView>, b: Seq<SourceView>) -> bool {
    &&& b.len() <= a.len()
    &&& forall|i: int| 0 <= i < b.len() ==> same_but_content(a[i], #[trigger] b[i])
}

proof fn lemma_trim_step_keeps(st: Trim, idx: int, budget: nat, sid: Seq<char>, offset: nat)
    requires
        0 <= idx < st.0.len(),
    ensures
        trim_step(st, idx, budget, sid, offset).0.len() == st.0.len(),
        kept_prefix(st.0, trim_step(st, idx, budget, sid, offset).0),
{
}

proof fn lemma_trim_pass_keeps(st: Trim, i: nat, budget: nat, sid: Seq<char>, offset: nat)
    requires
        i <= st.0.len(),
    ensures
        trim_pass(st, i, budget, sid, offset).0.len() == st.0.len(),
        kept_prefix(st.0, trim_pass(st, i, budget, sid, offset).0),
    decreases i,
{
    if i > 0 && st.1 > budget {
        let next = trim_step(st, i - 1, budget, sid, offset);
        lemma_trim_step_keeps(st, i - 1, budget, sid, offset);
        lemma_trim_pass_keeps(next, (i - 1) as nat, budget, sid, offset);
        let r = trim_pass(next, (i - 1) as nat, budget, sid, offset).0;
        assert forall|k: int| 0 <= k < r.len() implies same_but_content(st.0[k], #[trigger] r[k]) by {
            assert(same_but_content(st.0[k], next.0[k]));
            assert(same_but_content(next.0[k], r[k]));
        }
    }
}

proof fn lemma_pop_pass_prefix(st: Trim, budget: nat)
    ensures
        pop_pass(st, budget).0 == st.0.take(pop_pass(st, budget).0.len() as int),
        pop_pass(st, budget).0.len() <= st.0.len(),
    decreases st.0.len(),
{
    if st.1 > budget && st.0.len() > 1 {
        let next = (st.0.drop_last(), sat_sub(st.1, weight_spec(st.0.last())));
        lemma_pop_pass_prefix(next, budget);
        let r = pop_pass(next, budget).0;
        assert(r =~= st.0.take(r.len() as int));
    } else {
        assert(st.0 =~= st.0.take(st.0.len() as int));
    }
}

/// Trimming a response to its budget keeps its first sources in order, each with its URL,
/// provider, title, description and date; only inline content changes, and the first
/// source is never dropped.
pub proof fn law_budget_keeps_sources(
    answer_chars: nat,
    srcs: Seq<SourceView>,
    budget: nat,
    session_id: Seq<char>,
    offset: nat,
)
    ensures
        kept_prefix(srcs, budget_spec(answer_chars, srcs, budget, session_id, offset)),
        srcs.len() >= 1 ==> budget_spec(answer_chars, srcs, budget, session_id, offset).len() >= 1,
{
    let total = response_total(answer_chars, srcs);
    if total > budget {
        let t = trim_pass((srcs, total), srcs.len(), budget, session_id, offset);
        lemma_trim_pass_keeps((srcs, total), srcs.len(), budget, session_id, offset);
        lemma_pop_pass_prefix(t, budget);
        lemma_pop_pass_len(t, budget);
        let r = pop_pass(t, budget).0;
        assert forall|k: int| 0 <= k < r.len() implies same_but_content(srcs[k], #[trigger] r[k]) by {
            assert(r[k] == t.0[k]);
            assert(same_but_content(srcs[k], t.0[k]));
        }
    } else {
        assert forall|k: int| 0 <= k < srcs.len() implies same_but_content(srcs[k], #[trigger] srcs[k]) by {}
    }
}

/// A response within its budget is left as it is.
pub proof fn law_budget_within_is_identity(
    answer_chars: nat,
    srcs: Seq<SourceView>,
    budget: nat,
    session_id: Seq<char>,
    offset: nat,
)
    requires
        response_total(answer_chars, srcs) <= budget,
    ensures
        budget_spec(answer_chars, srcs, budget, session_id, offset) == srcs,
{
}

} // verus!
