use vstd::prelude::*;

verus! {

// ---------------------------------------------------------------------------
// Specifications over character sequences
// ---------------------------------------------------------------------------

/// Unicode `White_Space` characters, which `char::is_whitespace` recognises.
pub open spec fn spec_is_whitespace(c: char) -> bool {
    let u = c as u32;
    ||| 0x09 <= u <= 0x0d
    ||| u == 0x20
    ||| u == 0x85
    ||| u == 0xa0
    ||| u == 0x1680
    ||| 0x2000 <= u <= 0x200a
    ||| u == 0x2028
    ||| u == 0x2029
    ||| u == 0x202f
    ||| u == 0x205f
    ||| u == 0x3000
}

/// Drops leading whitespace.
pub open spec fn trim_start_spec(s: Seq<char>) -> Seq<char>
    decreases s.len(),
{
    if s.len() > 0 && spec_is_whitespace(s[0]) {
        trim_start_spec(s.drop_first())
    } else {
        s
    }
}

/// Drops trailing whitespace.
pub open spec fn trim_end_spec(s: Seq<char>) -> Seq<char>
    decreases s.len(),
{
    if s.len() > 0 && spec_is_whitespace(s.last()) {
        trim_end_spec(s.drop_last())
    } else {
        s
    }
}

/// `str::trim`: drops leading and trailing whitespace.
pub open spec fn trim_spec(s: Seq<char>) -> Seq<char> {
    trim_end_spec(trim_start_spec(s))
}

/// Drops every trailing occurrence of `c` (`str::trim_end_matches` with a char).
pub open spec fn trim_end_char_spec(s: Seq<char>, c: char) -> Seq<char>
    decreases s.len(),
{
    if s.len() > 0 && s.last() == c {
        trim_end_char_spec(s.drop_last(), c)
    } else {
        s
    }
}

/// `char::to_ascii_lowercase`.
pub open spec fn lower_char(c: char) -> char {
    if 'A' <= c <= 'Z' {
        ((c as u32) + 32) as char
    } else {
        c
    }
}

/// `str::to_ascii_lowercase`.
pub open spec fn lower_spec(s: Seq<char>) -> Seq<char> {
    s.map_values(|c: char| lower_char(c))
}

/// `needle` occurs in `hay` starting at `i`.
pub open spec fn occurs_at(hay: Seq<char>, needle: Seq<char>, i: int) -> bool {
    0 <= i && i + needle.len() <= hay.len() && hay.subrange(i, i + needle.len()) == needle
}

/// `str::contains` with a string pattern.
pub open spec fn contains_spec(hay: Seq<char>, needle: Seq<char>) -> bool {
    exists|i: int| occurs_at(hay, needle, i)
}

pub open spec fn starts_with_spec(s: Seq<char>, prefix: Seq<char>) -> bool {
    prefix.len() <= s.len() && s.subrange(0, prefix.len() as int) == prefix
}

pub open spec fn ends_with_spec(s: Seq<char>, suffix: Seq<char>) -> bool {
    suffix.len() <= s.len() && s.subrange(s.len() - suffix.len(), s.len() as int) == suffix
}

pub open spec fn is_digit(c: char) -> bool {
    '0' <= c <= '9'
}

pub open spec fn digit_value(c: char) -> nat {
    ((c as u32) - ('0' as u32)) as nat
}

pub open spec fn all_digits(s: Seq<char>) -> bool {
    forall|i: int| 0 <= i < s.len() ==> is_digit(#[trigger] s[i])
}

/// The number that a string of decimal digits denotes.
pub open spec fn digits_value(s: Seq<char>) -> nat
    decreases s.len(),
{
    if s.len() == 0 {
        0
    } else {
        digits_value(s.drop_last()) * 10 + digit_value(s.last())
    }
}

/// The digits that `u64::from_str` reads: an optional leading `+`, then the rest.
pub open spec fn unsigned_digits(s: Seq<char>) -> Seq<char> {
    if s.len() > 0 && s[0] == '+' {
        s.drop_first()
    } else {
        s
    }
}

/// `<uN as FromStr>::from_str` for an unsigned type whose largest value is `max`.
pub open spec fn parse_unsigned_spec(s: Seq<char>, max: nat) -> Option<nat> {
    let d = unsigned_digits(s);
    if d.len() > 0 && all_digits(d) && digits_value(d) <= max {
        Some(digits_value(d))
    } else {
        None
    }
}

/// The decimal rendering of a number (`Display` for unsigned integers).
pub open spec fn decimal_spec(n: nat) -> Seq<char>
    decreases n,
{
    if n < 10 {
        seq![digit_char(n)]
    } else {
        decimal_spec(n / 10).push(digit_char(n % 10))
    }
}

pub open spec fn digit_char(d: nat) -> char {
    (('0' as u32) + d) as char
}

/// `slice.join(sep)` over strings.
pub open spec fn join_spec(items: Seq<Seq<char>>, sep: Seq<char>) -> Seq<char>
    decreases items.len(),
{
    if items.len() == 0 {
        seq![]
    } else if items.len() == 1 {
        items[0]
    } else {
        join_spec(items.drop_last(), sep) + sep + items.last()
    }
}

pub open spec fn views(v: Seq<String>) -> Seq<Seq<char>> {
    v.map_values(|s: String| s@)
}

// ---------------------------------------------------------------------------
// Calls into std
// ---------------------------------------------------------------------------

/// `String::push`: appends one character.
#[verifier::external_body]
pub(crate) fn push_char(s: &mut String, c: char)
    ensures
        final(s)@ == old(s)@.push(c),
{
    s.push(c)
}

/// The character lowercased as `char::to_ascii_lowercase` does it: `A`..`Z` become
/// `a`..`z`, every other character stays.
pub(crate) fn lower_ascii_char(c: char) -> (r: char)
    ensures
        r == lower_char(c),
{
    if 'A' <= c && c <= 'Z' {
        let b: u8 = c as u8 + 32u8;
        b as char
    } else {
        c
    }
}

/// The character of a decimal digit: `'0' + d`, as `char::from_digit(d, 10)` gives it.
fn digit_to_char(d: u64) -> (c: char)
    requires
        d < 10,
    ensures
        c == digit_char(d as nat),
{
    let b: u8 = 48u8 + d as u8;
    b as char
}

/// Whether `c` has the Unicode `White_Space` property, as `char::is_whitespace` tells it.
pub(crate) fn is_whitespace(c: char) -> (r: bool)
    ensures
        r == spec_is_whitespace(c),
{
    let u = c as u32;
    (0x09 <= u && u <= 0x0d) || u == 0x20 || u == 0x85 || u == 0xa0 || u == 0x1680
        || (0x2000 <= u && u <= 0x200a) || u == 0x2028 || u == 0x2029 || u == 0x202f
        || u == 0x205f || u == 0x3000
}

// ---------------------------------------------------------------------------
// Verified helpers
// ---------------------------------------------------------------------------

/// The characters of a string slice, in order.
pub fn chars_of(s: &str) -> (out: Vec<char>)
    ensures
        out@ == s@,
{
    let mut out: Vec<char> = Vec::new();
    for c in it: s.chars()
        invariant
            out@ == it.seq().take(it.index() as int),
    {
        out.push(c);
    }
    out
}

/// A string holding the characters `v[from..to]`.
pub fn string_from_range(v: &Vec<char>, from: usize, to: usize) -> (s: String)
    requires
        from <= to <= v.len(),
    ensures
        s@ == v@.subrange(from as int, to as int),
{
    let mut s = String::new();
    let mut i = from;
    while i < to
        invariant
            from <= i <= to <= v.len(),
            s@ == v@.subrange(from as int, i as int),
        decreases to - i,
    {
        push_char(&mut s, v[i]);
        assert(v@.subrange(from as int, i + 1) == v@.subrange(from as int, i as int).push(v@[i as int]));
        i += 1;
    }
    s
}

/// A string holding the characters of `v`.
pub fn string_from_chars(v: &Vec<char>) -> (s: String)
    ensures
        s@ == v@,
{
    let s = string_from_range(v, 0, v.len());
    assert(v@.subrange(0, v@.len() as int) == v@);
    s
}

/// Appends the characters of `v` to `s`.
pub fn push_chars(s: &mut String, v: &Vec<char>)
    ensures
        final(s)@ == old(s)@ + v@,
{
    let mut i: usize = 0;
    while i < v.len()
        invariant
            i <= v.len(),
            s@ == old(s)@ + v@.subrange(0, i as int),
        decreases v.len() - i,
    {
        push_char(s, v[i]);
        assert(v@.subrange(0, i + 1) == v@.subrange(0, i as int).push(v@[i as int]));
        i += 1;
    }
    assert(v@.subrange(0, v@.len() as int) == v@);
}

/// Appends a string slice to `s`.
pub fn push_str(s: &mut String, t: &str)
    ensures
        final(s)@ == old(s)@ + t@,
{
    s.append(t);
}

/// The first index at or after `from` whose character is not whitespace, or `to`.
fn skip_whitespace(v: &Vec<char>, from: usize, to: usize) -> (i: usize)
    requires
        from <= to <= v.len(),
    ensures
        from <= i <= to,
        forall|k: int| from <= k < i ==> spec_is_whitespace(#[trigger] v@[k]),
        i < to ==> !spec_is_whitespace(v@[i as int]),
{
    let mut i = from;
    while i < to && is_whitespace(v[i])
        invariant
            from <= i <= to <= v.len(),
            forall|k: int| from <= k < i ==> spec_is_whitespace(#[trigger] v@[k]),
        decreases to - i,
    {
        i += 1;
    }
    i
}

pub proof fn lemma_trim_start_skip(s: Seq<char>, i: int)
    requires
        0 <= i <= s.len(),
        forall|k: int| 0 <= k < i ==> spec_is_whitespace(#[trigger] s[k]),
        i < s.len() ==> !spec_is_whitespace(s[i]),
    ensures
        trim_start_spec(s) == s.subrange(i, s.len() as int),
    decreases i,
{
    if i == 0 {
        assert(s.subrange(0, s.len() as int) == s);
    } else {
        let t = s.drop_first();
        assert forall|k: int| 0 <= k < i - 1 implies spec_is_whitespace(#[trigger] t[k]) by {
            assert(t[k] == s[k + 1]);
        }
        if i - 1 < t.len() {
            assert(t[i - 1] == s[i]);
        }
        lemma_trim_start_skip(t, i - 1);
        assert(t.subrange(i - 1, t.len() as int) == s.subrange(i, s.len() as int));
    }
}

pub proof fn lemma_trim_end_skip(s: Seq<char>, j: int)
    requires
        0 <= j <= s.len(),
        forall|k: int| j <= k < s.len() ==> spec_is_whitespace(#[trigger] s[k]),
        j > 0 ==> !spec_is_whitespace(s[j - 1]),
    ensures
        trim_end_spec(s) == s.subrange(0, j),
    decreases s.len() - j,
{
    if j == s.len() {
        assert(s.subrange(0, s.len() as int) == s);
    } else {
        let t = s.drop_last();
        assert forall|k: int| j <= k < t.len() implies spec_is_whitespace(#[trigger] t[k]) by {
            assert(t[k] == s[k]);
        }
        if j > 0 {
            assert(t[j - 1] == s[j - 1]);
        }
        lemma_trim_end_skip(t, j);
        assert(t.subrange(0, j) == s.subrange(0, j));
    }
}

/// The bounds `[start, end)` of the trimmed part of `v`.
pub fn trim_bounds(v: &Vec<char>) -> (r: (usize, usize))
    ensures
        r.0 <= r.1 <= v.len(),
        v@.subrange(r.0 as int, r.1 as int) == trim_spec(v@),
{
    let start = skip_whitespace(v, 0, v.len());
    let mut end = v.len();
    while end > start && is_whitespace(v[end - 1])
        invariant
            start <= end <= v.len(),
            forall|k: int| end <= k < v.len() ==> spec_is_whitespace(#[trigger] v@[k]),
        decreases end,
    {
        end -= 1;
    }
    proof {
        lemma_trim_start_skip(v@, start as int);
        let t = v@.subrange(start as int, v@.len() as int);
        assert forall|k: int| end - start <= k < t.len() implies spec_is_whitespace(#[trigger] t[k]) by {
            assert(t[k] == v@[k + start]);
        }
        if end > start {
            assert(t[end - start - 1] == v@[end - 1]);
        }
        lemma_trim_end_skip(t, end - start);
        assert(t.subrange(0, end - start) == v@.subrange(start as int, end as int));
    }
    (start, end)
}

/// `str::trim`, as characters.
pub fn trim_chars(v: &Vec<char>) -> (out: Vec<char>)
    ensures
        out@ == trim_spec(v@),
{
    let (start, end) = trim_bounds(v);
    slice_chars(v, start, end)
}

/// `v[from..to]` as a new vector.
pub fn slice_chars(v: &Vec<char>, from: usize, to: usize) -> (out: Vec<char>)
    requires
        from <= to <= v.len(),
    ensures
        out@ == v@.subrange(from as int, to as int),
{
    let mut out: Vec<char> = Vec::new();
    let mut i = from;
    while i < to
        invariant
            from <= i <= to <= v.len(),
            out@ == v@.subrange(from as int, i as int),
        decreases to - i,
    {
        out.push(v[i]);
        assert(v@.subrange(from as int, i + 1) == v@.subrange(from as int, i as int).push(v@[i as int]));
        i += 1;
    }
    out
}

/// `str::trim` on a string slice.
pub fn trim_str(s: &str) -> (out: String)
    ensures
        out@ == trim_spec(s@),
{
    let v = chars_of(s);
    let (start, end) = trim_bounds(&v);
    string_from_range(&v, start, end)
}

/// Whether the string is empty or all whitespace (`s.trim().is_empty()`).
pub fn is_blank(s: &str) -> (r: bool)
    ensures
        r == (trim_spec(s@).len() == 0),
{
    let v = chars_of(s);
    let (start, end) = trim_bounds(&v);
    start == end
}

pub proof fn lemma_trim_end_char_skip(s: Seq<char>, c: char, j: int)
    requires
        0 <= j <= s.len(),
        forall|k: int| j <= k < s.len() ==> #[trigger] s[k] == c,
        j > 0 ==> s[j - 1] != c,
    ensures
        trim_end_char_spec(s, c) == s.subrange(0, j),
    decreases s.len() - j,
{
    if j == s.len() {
        assert(s.subrange(0, s.len() as int) == s);
    } else {
        let t = s.drop_last();
        assert forall|k: int| j <= k < t.len() implies #[trigger] t[k] == c by {
            assert(t[k] == s[k]);
        }
        if j > 0 {
            assert(t[j - 1] == s[j - 1]);
        }
        lemma_trim_end_char_skip(t, c, j);
        assert(t.subrange(0, j) == s.subrange(0, j));
    }
}

/// `str::trim_end_matches(c)`, as characters.
pub fn trim_end_char(v: &Vec<char>, c: char) -> (out: Vec<char>)
    ensures
        out@ == trim_end_char_spec(v@, c),
{
    let mut end = v.len();
    while end > 0 && v[end - 1] == c
        invariant
            end <= v.len(),
            forall|k: int| end <= k < v.len() ==> #[trigger] v@[k] == c,
        decreases end,
    {
        end -= 1;
    }
    proof {
        lemma_trim_end_char_skip(v@, c, end as int);
    }
    slice_chars(v, 0, end)
}

/// `str::to_ascii_lowercase`, as characters.
pub fn lower_chars(v: &Vec<char>) -> (out: Vec<char>)
    ensures
        out@ == lower_spec(v@),
{
    let mut out: Vec<char> = Vec::new();
    let mut i: usize = 0;
    while i < v.len()
        invariant
            i <= v.len(),
            out@ == lower_spec(v@.subrange(0, i as int)),
        decreases v.len() - i,
    {
        out.push(lower_ascii_char(v[i]));
        assert(lower_spec(v@.subrange(0, i + 1)) == lower_spec(v@.subrange(0, i as int)).push(lower_char(v@[i as int])));
        i += 1;
    }
    assert(v@.subrange(0, v@.len() as int) == v@);
    out
}

/// Whether `needle` occurs in `hay` at position `i`.
pub fn occurs_at_exec(hay: &Vec<char>, needle: &Vec<char>, i: usize) -> (r: bool)
    ensures
        r == occurs_at(hay@, needle@, i as int),
{
    if needle.len() > hay.len() || i > hay.len() - needle.len() {
        return false;
    }
    let mut k: usize = 0;
    while k < needle.len()
        invariant
            k <= needle.len(),
            i + needle.len() <= hay.len(),
            forall|j: int| 0 <= j < k ==> hay@[i + j] == needle@[j],
        decreases needle.len() - k,
    {
        if hay[i + k] != needle[k] {
            assert(hay@.subrange(i as int, i + needle.len())[k as int] != needle@[k as int]);
            return false;
        }
        k += 1;
    }
    assert(hay@.subrange(i as int, i + needle.len()) =~= needle@);
    true
}

/// The first position at or after `from` where `needle` occurs, if any.
pub fn find_from(hay: &Vec<char>, needle: &Vec<char>, from: usize) -> (r: Option<usize>)
    requires
        from <= hay.len(),
    ensures
        match r {
            Some(i) => from <= i && occurs_at(hay@, needle@, i as int)
                && forall|j: int| from <= j < i ==> !occurs_at(hay@, needle@, j),
            None => forall|j: int| from <= j ==> !occurs_at(hay@, needle@, j),
        },
{
    if needle.len() == 0 {
        assert(hay@.subrange(from as int, from as int) =~= needle@);
        return Some(from);
    }
    let mut i = from;
    while i < hay.len()
        invariant
            from <= i <= hay.len(),
            needle.len() > 0,
            forall|j: int| from <= j < i ==> !occurs_at(hay@, needle@, j),
        decreases hay.len() - i,
    {
        if occurs_at_exec(hay, needle, i) {
            return Some(i);
        }
        i += 1;
    }
    None
}

/// `str::contains` with a string pattern.
pub fn contains_chars(hay: &Vec<char>, needle: &Vec<char>) -> (r: bool)
    ensures
        r == contains_spec(hay@, needle@),
{
    match find_from(hay, needle, 0) {
        Some(_) => true,
        None => false,
    }
}

/// `str::starts_with` with a string pattern.
pub fn starts_with_chars(s: &Vec<char>, prefix: &Vec<char>) -> (r: bool)
    ensures
        r == starts_with_spec(s@, prefix@),
{
    occurs_at_exec(s, prefix, 0)
}

/// `str::ends_with` with a string pattern.
pub fn ends_with_chars(s: &Vec<char>, suffix: &Vec<char>) -> (r: bool)
    ensures
        r == ends_with_spec(s@, suffix@),
{
    if suffix.len() > s.len() {
        return false;
    }
    occurs_at_exec(s, suffix, s.len() - suffix.len())
}

/// Whether two character vectors are equal.
pub fn chars_eq(a: &Vec<char>, b: &Vec<char>) -> (r: bool)
    ensures
        r == (a@ == b@),
{
    if a.len() != b.len() {
        return false;
    }
    let r = occurs_at_exec(a, b, 0);
    proof {
        if r {
            assert(a@.subrange(0, a@.len() as int) == a@);
        } else {
            assert(!(a@.subrange(0, b@.len() as int) == b@));
            if a@ == b@ {
                assert(a@.subrange(0, a@.len() as int) == a@);
            }
        }
    }
    r
}

/// Whether a string slice equals the given characters.
pub fn str_eq(a: &str, b: &str) -> (r: bool)
    ensures
        r == (a@ == b@),
{
    let x = chars_of(a);
    let y = chars_of(b);
    chars_eq(&x, &y)
}

pub proof fn lemma_digits_value_push(s: Seq<char>, c: char)
    ensures
        digits_value(s.push(c)) == digits_value(s) * 10 + digit_value(c),
{
    assert(s.push(c).drop_last() == s);
}

/// `<u64 as FromStr>::from_str` on the given characters, limited to values up to `max`.
pub fn parse_unsigned(v: &Vec<char>, max: u64) -> (r: Option<u64>)
    ensures
        match parse_unsigned_spec(v@, max as nat) {
            Some(n) => r == Some(n as u64),
            None => r.is_none(),
        },
{
    let start: usize = if v.len() > 0 && v[0] == '+' { 1 } else { 0 };
    let ghost d = unsigned_digits(v@);
    assert(d == v@.subrange(start as int, v@.len() as int));
    if start == v.len() {
        return None;
    }
    let mut value: u64 = 0;
    let mut i = start;
    while i < v.len()
        invariant
            start <= i <= v.len(),
            d == unsigned_digits(v@),
            d == v@.subrange(start as int, v@.len() as int),
            all_digits(v@.subrange(start as int, i as int)),
            value as nat == digits_value(v@.subrange(start as int, i as int)),
            value <= max,
        decreases v.len() - i,
    {
        let c = v[i];
        let ghost prefix = v@.subrange(start as int, i as int);
        assert(v@.subrange(start as int, i + 1) == prefix.push(c));
        proof {
            lemma_digits_value_push(prefix, c);
        }
        if !('0' <= c && c <= '9') {
            proof {
                assert(d[(i - start) as int] == v@[i as int]);
                assert(!is_digit(d[(i - start) as int]));
            }
            return None;
        }
        let digit = (c as u32 - '0' as u32) as u64;
        if digit > max || value > (max - digit) / 10 {
            proof {
                if all_digits(d) {
                    lemma_digits_prefix_bound(d, (i + 1 - start) as int);
                }
                assert(v@.subrange(start as int, i + 1) == d.subrange(0, i + 1 - start));
                assert(value * 10 + digit > max) by (nonlinear_arith)
                    requires digit > max || value > (max - digit) / 10;
            }
            return None;
        }
        value = value * 10 + digit;
        i += 1;
    }
    proof {
        lemma_digit_overflow_free(max, value);
    }
    Some(value)
}

proof fn lemma_digit_overflow_free(max: u64, value: u64) {}

/// Digits of a prefix never denote more than the whole string of digits.
proof fn lemma_digits_prefix_bound(d: Seq<char>, k: int)
    requires
        0 <= k <= d.len(),
        all_digits(d),
    ensures
        digits_value(d.subrange(0, k)) <= digits_value(d),
    decreases d.len() - k,
{
    if k < d.len() {
        lemma_digits_prefix_bound(d, k + 1);
        let p = d.subrange(0, k);
        assert(d.subrange(0, k + 1) == p.push(d[k]));
        lemma_digits_value_push(p, d[k]);
        assert(is_digit(d[k]));
    } else {
        assert(d.subrange(0, d.len() as int) == d);
    }
}

/// The decimal digits of `n`.
pub fn decimal_chars(n: u64) -> (out: Vec<char>)
    ensures
        out@ == decimal_spec(n as nat),
    decreases n,
{
    let d = n % 10;
    let c = digit_to_char(d);
    if n < 10 {
        let mut out: Vec<char> = Vec::new();
        out.push(c);
        assert(out@ == seq![c]);
        out
    } else {
        let mut out = decimal_chars(n / 10);
        out.push(c);
        out
    }
}

/// The decimal rendering of `n`, as a `String`.
pub fn decimal_string(n: u64) -> (s: String)
    ensures
        s@ == decimal_spec(n as nat),
{
    let v = decimal_chars(n);
    string_from_chars(&v)
}

/// `items.join(sep)`.
pub fn join_strings(items: &Vec<String>, sep: &str) -> (out: String)
    ensures
        out@ == join_spec(views(items@), sep@),
{
    let mut out = String::new();
    let mut i: usize = 0;
    while i < items.len()
        invariant
            i <= items.len(),
            out@ == join_spec(views(items@.subrange(0, i as int)), sep@),
        decreases items.len() - i,
    {
        let ghost before = views(items@.subrange(0, i as int));
        let ghost after = views(items@.subrange(0, i + 1));
        assert(after.drop_last() == before);
        assert(after.last() == items@[i as int]@);
        if i > 0 {
            push_str(&mut out, sep);
        }
        push_str(&mut out, items[i].as_str());
        i += 1;
    }
    assert(items@.subrange(0, items@.len() as int) == items@);
    out
}

/// `str::split(c)`: the pieces between occurrences of `c`; always at least one piece.
pub open spec fn split_spec(s: Seq<char>, c: char) -> Seq<Seq<char>>
    decreases s.len(),
{
    if s.len() == 0 {
        seq![Seq::<char>::empty()]
    } else {
        let r = split_spec(s.drop_last(), c);
        if s.last() == c {
            r.push(Seq::<char>::empty())
        } else {
            r.update(r.len() - 1, r.last().push(s.last()))
        }
    }
}

pub proof fn lemma_split_nonempty(s: Seq<char>, c: char)
    ensures
        split_spec(s, c).len() >= 1,
    decreases s.len(),
{
    if s.len() > 0 {
        lemma_split_nonempty(s.drop_last(), c);
    }
}

pub open spec fn char_views(v: Seq<Vec<char>>) -> Seq<Seq<char>> {
    v.map_values(|x: Vec<char>| x@)
}

/// `str::split(c)`, as character vectors.
pub fn split_chars(v: &Vec<char>, c: char) -> (out: Vec<Vec<char>>)
    ensures
        char_views(out@) == split_spec(v@, c),
        out@.len() >= 1,
{
    let mut out: Vec<Vec<char>> = Vec::new();
    let mut current: Vec<char> = Vec::new();
    let mut i: usize = 0;
    assert(v@.subrange(0, 0) == Seq::<char>::empty());
    while i < v.len()
        invariant
            i <= v.len(),
            char_views(out@).push(current@) == split_spec(v@.subrange(0, i as int), c),
        decreases v.len() - i,
    {
        let ghost pre = v@.subrange(0, i as int);
        assert(v@.subrange(0, i + 1).drop_last() == pre);
        assert(v@.subrange(0, i + 1).last() == v@[i as int]);
        if v[i] == c {
            let done = current;
            out.push(done);
            current = Vec::new();
            assert(char_views(out@) == char_views(out@.drop_last()).push(done@));
        } else {
            current.push(v[i]);
        }
        assert(char_views(out@).push(current@) =~= split_spec(v@.subrange(0, i + 1), c));
        i += 1;
    }
    let ghost before = char_views(out@);
    out.push(current);
    assert(char_views(out@) == before.push(current@));
    assert(v@.subrange(0, v@.len() as int) == v@);
    out
}

/// `str::replace(pattern, replacement)` for a non-empty pattern: every occurrence, taken
/// left to right without overlap, is replaced.
pub open spec fn replace_spec(s: Seq<char>, pat: Seq<char>, rep: Seq<char>) -> Seq<char>
    decreases s.len(),
{
    if s.len() == 0 || pat.len() == 0 {
        s
    } else if starts_with_spec(s, pat) {
        rep + replace_spec(s.skip(pat.len() as int), pat, rep)
    } else {
        seq![s[0]] + replace_spec(s.drop_first(), pat, rep)
    }
}

proof fn lemma_replace_step_match(s: Seq<char>, pat: Seq<char>, rep: Seq<char>, i: int)
    requires
        0 <= i,
        pat.len() > 0,
        occurs_at(s, pat, i),
    ensures
        replace_spec(s.skip(i), pat, rep) == rep + replace_spec(s.skip(i + pat.len()), pat, rep),
{
    let t = s.skip(i);
    assert(t.subrange(0, pat.len() as int) == s.subrange(i, i + pat.len()));
    assert(t.skip(pat.len() as int) == s.skip(i + pat.len()));
}

proof fn lemma_replace_step_skip(s: Seq<char>, pat: Seq<char>, rep: Seq<char>, i: int)
    requires
        0 <= i < s.len(),
        pat.len() > 0,
        !occurs_at(s, pat, i),
    ensures
        replace_spec(s.skip(i), pat, rep) == seq![s[i]] + replace_spec(s.skip(i + 1), pat, rep),
{
    let t = s.skip(i);
    if pat.len() <= t.len() {
        assert(t.subrange(0, pat.len() as int) == s.subrange(i, i + pat.len()));
    }
    assert(t.drop_first() == s.skip(i + 1));
}

/// A prefix of a replacement by `***` that shows no `*` is the text's own prefix: no
/// replacement starts inside it.
proof fn lemma_replace_prefix(t: Seq<char>, q: Seq<char>, m: int)
    requires
        0 <= m <= replace_spec(t, q, "***"@).len(),
        forall|j: int| 0 <= j < m ==> replace_spec(t, q, "***"@)[j] != '*',
    ensures
        m <= t.len(),
        replace_spec(t, q, "***"@).subrange(0, m) == t.subrange(0, m),
    decreases t.len(),
{
    reveal_strlit("***");
    let r = replace_spec(t, q, "***"@);
    if t.len() == 0 || q.len() == 0 {
    } else if starts_with_spec(t, q) {
        if m > 0 {
            assert(r[0] == '*');
        }
    } else if m > 0 {
        let rt = replace_spec(t.drop_first(), q, "***"@);
        assert(r == seq![t[0]] + rt);
        assert forall|j: int| 0 <= j < m - 1 implies rt[j] != '*' by {
            assert(r[j + 1] == rt[j]);
        }
        lemma_replace_prefix(t.drop_first(), q, m - 1);
        assert(r.subrange(0, m) =~= seq![t[0]] + rt.subrange(0, m - 1));
        assert(t.subrange(0, m) =~= seq![t[0]] + t.drop_first().subrange(0, m - 1));
    }
}

/// Replacing a pattern that holds no `*` by `***` leaves no occurrence of it.
pub proof fn lemma_replace_removes(s: Seq<char>, pat: Seq<char>)
    requires
        pat.len() > 0,
        !pat.contains('*'),
    ensures
        !contains_spec(replace_spec(s, pat, "***"@), pat),
    decreases s.len(),
{
    reveal_strlit("***");
    let n = pat.len() as int;
    let r = replace_spec(s, pat, "***"@);
    if s.len() == 0 {
        assert forall|i: int| !occurs_at(r, pat, i) by {}
    } else if starts_with_spec(s, pat) {
        let rest = s.skip(n);
        lemma_replace_removes(rest, pat);
        let rr = replace_spec(rest, pat, "***"@);
        assert(r == "***"@ + rr);
        assert forall|i: int| !occurs_at(r, pat, i) by {
            if occurs_at(r, pat, i) {
                if i < 3 {
                    assert(r.subrange(i, i + n)[0] == r[i]);
                    assert(pat[0] == '*');
                } else {
                    assert(r.subrange(i, i + n) =~= rr.subrange(i - 3, i - 3 + n));
                    assert(occurs_at(rr, pat, i - 3));
                }
            }
        }
    } else {
        let t = s.drop_first();
        lemma_replace_removes(t, pat);
        let rt = replace_spec(t, pat, "***"@);
        assert(r == seq![s[0]] + rt);
        assert forall|i: int| !occurs_at(r, pat, i) by {
            if occurs_at(r, pat, i) {
                if i == 0 {
                    assert forall|j: int| 0 <= j < n - 1 implies rt[j] != '*' by {
                        assert(r.subrange(0, n)[j + 1] == rt[j]);
                        assert(pat[j + 1] == rt[j]);
                    }
                    lemma_replace_prefix(t, pat, n - 1);
                    assert(rt.subrange(0, n - 1) =~= pat.subrange(1, n));
                    assert(r.subrange(0, n)[0] == s[0]);
                    assert(s.subrange(0, n) =~= seq![s[0]] + t.subrange(0, n - 1));
                    assert(pat =~= seq![pat[0]] + pat.subrange(1, n));
                    assert(s.subrange(0, n) =~= pat);
                } else {
                    assert(r.subrange(i, i + n) =~= rt.subrange(i - 1, i - 1 + n));
                    assert(occurs_at(rt, pat, i - 1));
                }
            }
        }
    }
}

/// Replacing any pattern by `***` creates no occurrence of a pattern that holds no `*`.
pub proof fn lemma_replace_keeps_absent(s: Seq<char>, q: Seq<char>, pat: Seq<char>)
    requires
        pat.len() > 0,
        !pat.contains('*'),
        !contains_spec(s, pat),
    ensures
        !contains_spec(replace_spec(s, q, "***"@), pat),
    decreases s.len(),
{
    reveal_strlit("***");
    let n = pat.len() as int;
    let r = replace_spec(s, q, "***"@);
    if s.len() == 0 || q.len() == 0 {
    } else if starts_with_spec(s, q) {
        let rest = s.skip(q.len() as int);
        assert forall|i: int| !occurs_at(rest, pat, i) by {
            if occurs_at(rest, pat, i) {
                assert(rest.subrange(i, i + n) =~= s.subrange(i + q.len(), i + q.len() + n));
                assert(occurs_at(s, pat, i + q.len()));
            }
        }
        lemma_replace_keeps_absent(rest, q, pat);
        let rr = replace_spec(rest, q, "***"@);
        assert(r == "***"@ + rr);
        assert forall|i: int| !occurs_at(r, pat, i) by {
            if occurs_at(r, pat, i) {
                if i < 3 {
                    assert(r.subrange(i, i + n)[0] == r[i]);
                    assert(pat[0] == '*');
                } else {
                    assert(r.subrange(i, i + n) =~= rr.subrange(i - 3, i - 3 + n));
                    assert(occurs_at(rr, pat, i - 3));
                }
            }
        }
    } else {
        let t = s.drop_first();
        assert forall|i: int| !occurs_at(t, pat, i) by {
            if occurs_at(t, pat, i) {
                assert(t.subrange(i, i + n) =~= s.subrange(i + 1, i + 1 + n));
                assert(occurs_at(s, pat, i + 1));
            }
        }
        lemma_replace_keeps_absent(t, q, pat);
        let rt = replace_spec(t, q, "***"@);
        assert(r == seq![s[0]] + rt);
        assert forall|i: int| !occurs_at(r, pat, i) by {
            if occurs_at(r, pat, i) {
                if i == 0 {
                    assert forall|j: int| 0 <= j < n - 1 implies rt[j] != '*' by {
                        assert(r.subrange(0, n)[j + 1] == rt[j]);
                        assert(pat[j + 1] == rt[j]);
                    }
                    lemma_replace_prefix(t, q, n - 1);
                    assert(rt.subrange(0, n - 1) =~= pat.subrange(1, n));
                    assert(r.subrange(0, n)[0] == s[0]);
                    assert(s.subrange(0, n) =~= seq![s[0]] + t.subrange(0, n - 1));
                    assert(pat =~= seq![pat[0]] + pat.subrange(1, n));
                    assert(s.subrange(0, n) =~= pat);
                    assert(occurs_at(s, pat, 0));
                } else {
                    assert(r.subrange(i, i + n) =~= rt.subrange(i - 1, i - 1 + n));
                    assert(occurs_at(rt, pat, i - 1));
                }
            }
        }
    }
}

/// `str::replace(pattern, replacement)`, as characters.
pub fn replace_chars(v: &Vec<char>, pat: &Vec<char>, rep: &Vec<char>) -> (out: Vec<char>)
    ensures
        out@ == replace_spec(v@, pat@, rep@),
{
    if pat.len() == 0 {
        return slice_chars(v, 0, v.len());
    }
    let mut out: Vec<char> = Vec::new();
    let mut i: usize = 0;
    assert(v@.skip(0) == v@);
    while i < v.len()
        invariant
            i <= v.len(),
            pat@.len() > 0,
            out@ + replace_spec(v@.skip(i as int), pat@, rep@) == replace_spec(v@, pat@, rep@),
        decreases v.len() - i,
    {
        if occurs_at_exec(v, pat, i) {
            proof {
                lemma_replace_step_match(v@, pat@, rep@, i as int);
            }
            let ghost o = out@;
            let mut k: usize = 0;
            while k < rep.len()
                invariant
                    k <= rep.len(),
                    out@ == o + rep@.subrange(0, k as int),
                decreases rep.len() - k,
            {
                out.push(rep[k]);
                assert(rep@.subrange(0, k + 1) == rep@.subrange(0, k as int).push(rep@[k as int]));
                k += 1;
            }
            assert(rep@.subrange(0, rep@.len() as int) == rep@);
            assert(out@ + replace_spec(v@.skip(i + pat@.len()), pat@, rep@)
                == o + (rep@ + replace_spec(v@.skip(i + pat@.len()), pat@, rep@)));
            i = i + pat.len();
        } else {
            proof {
                lemma_replace_step_skip(v@, pat@, rep@, i as int);
            }
            let ghost o = out@;
            out.push(v[i]);
            assert(out@ + replace_spec(v@.skip(i + 1), pat@, rep@)
                == o + (seq![v@[i as int]] + replace_spec(v@.skip(i + 1), pat@, rep@)));
            i += 1;
        }
    }
    assert(v@.skip(v@.len() as int) == Seq::<char>::empty());
    out
}

/// The index of the first `c` in `s`.
pub open spec fn first_index(s: Seq<char>, c: char) -> Option<int>
    decreases s.len(),
{
    if s.len() == 0 {
        None
    } else if s[0] == c {
        Some(0)
    } else {
        match first_index(s.drop_first(), c) {
            Some(k) => Some(k + 1),
            None => None,
        }
    }
}

proof fn lemma_first_index_found(s: Seq<char>, c: char, i: int)
    requires
        0 <= i < s.len(),
        s[i] == c,
        forall|j: int| 0 <= j < i ==> s[j] != c,
    ensures
        first_index(s, c) == Some(i),
    decreases i,
{
    if i > 0 {
        let t = s.drop_first();
        assert(t[i - 1] == s[i]);
        assert forall|j: int| 0 <= j < i - 1 implies t[j] != c by {
            assert(t[j] == s[j + 1]);
        }
        lemma_first_index_found(t, c, i - 1);
    }
}

proof fn lemma_first_index_absent(s: Seq<char>, c: char)
    requires
        forall|j: int| 0 <= j < s.len() ==> s[j] != c,
    ensures
        first_index(s, c).is_none(),
    decreases s.len(),
{
    if s.len() > 0 {
        let t = s.drop_first();
        assert forall|j: int| 0 <= j < t.len() implies t[j] != c by {
            assert(t[j] == s[j + 1]);
        }
        lemma_first_index_absent(t, c);
    }
}

/// The first `c` at or after `from`, as an index into `v`; it is `from` plus the index of
/// the first `c` in `v[from..]`.
pub fn find_char(v: &Vec<char>, c: char, from: usize) -> (r: Option<usize>)
    requires
        from <= v.len(),
    ensures
        match r {
            Some(i) => from <= i < v.len() && first_index(v@.skip(from as int), c) == Some(i - from),
            None => first_index(v@.skip(from as int), c).is_none(),
        },
{
    let mut i = from;
    while i < v.len()
        invariant
            from <= i <= v.len(),
            forall|j: int| from <= j < i ==> v@[j] != c,
        decreases v.len() - i,
    {
        if v[i] == c {
            proof {
                let t = v@.skip(from as int);
                assert forall|j: int| 0 <= j < i - from implies t[j] != c by {
                    assert(t[j] == v@[j + from]);
                }
                lemma_first_index_found(t, c, i - from);
            }
            return Some(i);
        }
        i += 1;
    }
    proof {
        let t = v@.skip(from as int);
        assert forall|j: int| 0 <= j < t.len() implies t[j] != c by {
            assert(t[j] == v@[j + from]);
        }
        lemma_first_index_absent(t, c);
    }
    None
}

/// Every character is an ASCII digit.
pub open spec fn all_ascii_digits(s: Seq<char>) -> bool {
    forall|i: int| 0 <= i < s.len() ==> is_digit(#[trigger] s[i])
}

pub fn all_ascii_digits_exec(v: &Vec<char>) -> (r: bool)
    ensures
        r == all_ascii_digits(v@),
{
    let mut i: usize = 0;
    while i < v.len()
        invariant
            i <= v.len(),
            forall|j: int| 0 <= j < i ==> is_digit(#[trigger] v@[j]),
        decreases v.len() - i,
    {
        if !('0' <= v[i] && v[i] <= '9') {
            assert(!is_digit(v@[i as int]));
            return false;
        }
        i += 1;
    }
    true
}

/// A hexadecimal digit.
pub open spec fn is_hex_digit(c: char) -> bool {
    ('0' <= c <= '9') || ('a' <= c <= 'f') || ('A' <= c <= 'F')
}

pub open spec fn hex_value(c: char) -> nat {
    if '0' <= c <= '9' {
        ((c as u32) - ('0' as u32)) as nat
    } else if 'a' <= c <= 'f' {
        ((c as u32) - ('a' as u32) + 10) as nat
    } else {
        ((c as u32) - ('A' as u32) + 10) as nat
    }
}

pub open spec fn all_hex(s: Seq<char>) -> bool {
    forall|i: int| 0 <= i < s.len() ==> is_hex_digit(#[trigger] s[i])
}

pub open spec fn hex_digits_value(s: Seq<char>) -> nat
    decreases s.len(),
{
    if s.len() == 0 {
        0
    } else {
        hex_digits_value(s.drop_last()) * 16 + hex_value(s.last())
    }
}

/// `u32::from_str_radix(s, 16)`: an optional `+`, then hexadecimal digits, no larger than
/// `u32::MAX`.
pub open spec fn parse_hex_spec(s: Seq<char>) -> Option<nat> {
    let d = unsigned_digits(s);
    if d.len() > 0 && all_hex(d) && hex_digits_value(d) <= u32::MAX {
        Some(hex_digits_value(d))
    } else {
        None
    }
}

proof fn lemma_hex_prefix_bound(d: Seq<char>, k: int)
    requires
        0 <= k <= d.len(),
        all_hex(d),
    ensures
        hex_digits_value(d.subrange(0, k)) <= hex_digits_value(d),
    decreases d.len() - k,
{
    if k < d.len() {
        lemma_hex_prefix_bound(d, k + 1);
        let p = d.subrange(0, k);
        assert(d.subrange(0, k + 1) == p.push(d[k]));
        assert(d.subrange(0, k + 1).drop_last() == p);
    } else {
        assert(d.subrange(0, d.len() as int) == d);
    }
}

/// `u32::from_str_radix(s, 16)` on the given characters.
pub fn parse_hex(v: &Vec<char>) -> (r: Option<u32>)
    ensures
        match parse_hex_spec(v@) {
            Some(n) => r == Some(n as u32),
            None => r.is_none(),
        },
{
    let start: usize = if v.len() > 0 && v[0] == '+' { 1 } else { 0 };
    let ghost d = unsigned_digits(v@);
    assert(d == v@.subrange(start as int, v@.len() as int));
    if start == v.len() {
        return None;
    }
    let mut value: u32 = 0;
    let mut i = start;
    while i < v.len()
        invariant
            start <= i <= v.len(),
            d == unsigned_digits(v@),
            d == v@.subrange(start as int, v@.len() as int),
            all_hex(v@.subrange(start as int, i as int)),
            value as nat == hex_digits_value(v@.subrange(start as int, i as int)),
        decreases v.len() - i,
    {
        let c = v[i];
        let ghost prefix = v@.subrange(start as int, i as int);
        assert(v@.subrange(start as int, i + 1) == prefix.push(c));
        assert(v@.subrange(start as int, i + 1).drop_last() == prefix);
        let digit: u32 = if '0' <= c && c <= '9' {
            c as u32 - '0' as u32
        } else if 'a' <= c && c <= 'f' {
            c as u32 - 'a' as u32 + 10
        } else if 'A' <= c && c <= 'F' {
            c as u32 - 'A' as u32 + 10
        } else {
            proof {
                assert(d[(i - start) as int] == v@[i as int]);
                assert(!is_hex_digit(d[(i - start) as int]));
            }
            return None;
        };
        if value > (u32::MAX - digit) / 16 {
            proof {
                if all_hex(d) {
                    lemma_hex_prefix_bound(d, (i + 1 - start) as int);
                    assert(v@.subrange(start as int, i + 1) == d.subrange(0, i + 1 - start));
                }
                assert(value * 16 + digit > u32::MAX) by (nonlinear_arith)
                    requires value > (u32::MAX - digit) / 16, digit <= 15;
            }
            return None;
        }
        value = value * 16 + digit;
        i += 1;
    }
    Some(value)
}

/// A Unicode scalar value: what `char::from_u32` accepts.
pub open spec fn is_scalar(n: nat) -> bool {
    n <= 0x10FFFF && !(0xD800 <= n <= 0xDFFF)
}

/// `char::from_u32`: the character with code `n`, when `n` is a Unicode scalar value.
#[verifier::external_body]
pub(crate) fn char_from_u32(n: u32) -> (r: Option<char>)
    ensures
        match r {
            Some(c) => is_scalar(n as nat) && c as u32 == n,
            None => !is_scalar(n as nat),
        },
{
    char::from_u32(n)
}

/// The decimal rendering of a signed number (`Display` for `i64`).
pub open spec fn signed_decimal_spec(n: int) -> Seq<char> {
    if n < 0 { seq!['-'] + decimal_spec((-n) as nat) } else { decimal_spec(n as nat) }
}

/// The decimal rendering of `n`, as a `String`.
pub fn signed_decimal_string(n: i64) -> (s: String)
    ensures
        s@ == signed_decimal_spec(n as int),
{
    if n < 0 {
        let magnitude: u64 = if n == i64::MIN { 9223372036854775808u64 } else { (-n) as u64 };
        let mut s = String::new();
        push_char(&mut s, '-');
        let d = decimal_string(magnitude);
        push_str(&mut s, d.as_str());
        s
    } else {
        decimal_string(n as u64)
    }
}

/// `a < b` in the order of `str`: lexicographic by character.
pub open spec fn seq_less(a: Seq<char>, b: Seq<char>) -> bool
    decreases a.len(),
{
    if a.len() == 0 {
        b.len() > 0
    } else if b.len() == 0 {
        false
    } else if a[0] != b[0] {
        (a[0] as u32) < (b[0] as u32)
    } else {
        seq_less(a.drop_first(), b.drop_first())
    }
}

/// Two characters with the same code are the same character.
pub proof fn lemma_char_code_injective(c1: char, c2: char)
    requires
        c1 as u32 == c2 as u32,
    ensures
        c1 == c2,
{
    assert(c1 as nat == c2 as nat);
}

/// `seq_less` is asymmetric.
pub proof fn lemma_seq_less_asym(a: Seq<char>, b: Seq<char>)
    ensures
        seq_less(a, b) ==> !seq_less(b, a),
    decreases a.len(),
{
    if a.len() > 0 && b.len() > 0 && a[0] == b[0] {
        lemma_seq_less_asym(a.drop_first(), b.drop_first());
    }
}

/// Two different strings are ordered one way or the other.
pub proof fn lemma_seq_less_total(a: Seq<char>, b: Seq<char>)
    ensures
        a != b ==> seq_less(a, b) || seq_less(b, a),
    decreases a.len(),
{
    if a.len() > 0 && b.len() > 0 {
        if a[0] == b[0] {
            lemma_seq_less_total(a.drop_first(), b.drop_first());
            if a.drop_first() == b.drop_first() {
                assert(a =~= seq![a[0]] + a.drop_first());
                assert(b =~= seq![b[0]] + b.drop_first());
            }
        } else {
            if (a[0] as u32) == (b[0] as u32) {
                lemma_char_code_injective(a[0], b[0]);
            }
        }
    } else if a.len() == 0 && b.len() == 0 {
        assert(a =~= b);
    }
}

/// `seq_less` is transitive.
pub proof fn lemma_seq_less_trans(a: Seq<char>, b: Seq<char>, c: Seq<char>)
    ensures
        seq_less(a, b) && seq_less(b, c) ==> seq_less(a, c),
    decreases a.len(),
{
    if a.len() > 0 && b.len() > 0 && c.len() > 0 && a[0] == b[0] && b[0] == c[0] {
        lemma_seq_less_trans(a.drop_first(), b.drop_first(), c.drop_first());
    }
}

/// Not being smaller is transitive.
pub proof fn lemma_seq_not_less_trans(a: Seq<char>, b: Seq<char>, c: Seq<char>)
    ensures
        !seq_less(a, b) && !seq_less(b, c) ==> !seq_less(a, c),
{
    lemma_seq_less_total(b, c);
    lemma_seq_less_trans(a, c, b);
}

/// `a < b` on strings.
pub fn str_less(a: &str, b: &str) -> (r: bool)
    ensures
        r == seq_less(a@, b@),
{
    let x = chars_of(a);
    let y = chars_of(b);
    let mut i: usize = 0;
    assert(x@.skip(0) == x@ && y@.skip(0) == y@);
    while i < x.len() && i < y.len()
        invariant
            i <= x.len(),
            i <= y.len(),
            seq_less(a@, b@) == seq_less(x@.skip(i as int), y@.skip(i as int)),
            x@ == a@,
            y@ == b@,
        decreases x.len() - i,
    {
        assert(x@.skip(i as int)[0] == x@[i as int]);
        assert(y@.skip(i as int)[0] == y@[i as int]);
        if x[i] != y[i] {
            return (x[i] as u32) < (y[i] as u32);
        }
        assert(x@.skip(i as int).drop_first() == x@.skip(i + 1));
        assert(y@.skip(i as int).drop_first() == y@.skip(i + 1));
        i += 1;
    }
    i == x.len() && i < y.len()
}

/// What `first_index` finds is the first occurrence.
pub proof fn lemma_first_index_props(s: Seq<char>, c: char)
    ensures
        match first_index(s, c) {
            Some(k) => 0 <= k < s.len() && s[k] == c && forall|j: int| 0 <= j < k ==> s[j] != c,
            None => forall|j: int| 0 <= j < s.len() ==> s[j] != c,
        },
    decreases s.len(),
{
    if s.len() > 0 {
        let t = s.drop_first();
        lemma_first_index_props(t, c);
        match first_index(t, c) {
            Some(k) => {
                if s[0] != c {
                    assert forall|j: int| 0 <= j < k + 1 implies s[j] != c by {
                        if j > 0 {
                            assert(s[j] == t[j - 1]);
                        }
                    }
                    assert(s[k + 1] == t[k]);
                }
            }
            None => {
                if s[0] != c {
                    assert forall|j: int| 0 <= j < s.len() implies s[j] != c by {
                        if j > 0 {
                            assert(s[j] == t[j - 1]);
                        }
                    }
                }
            }
        }
    }
}

} // verus!
