use vstd::prelude::*;

use crate::text::{char_views, chars_of, split_chars, split_spec, string_from_chars, views};

verus! {

/// The parts of a parsed URL that the library reads.
pub struct UrlParts {
    /// The scheme, lowercase, without the `:`.
    pub scheme: String,
    /// The host, when the URL has one.
    pub host: Option<String>,
    /// The percent-encoded path.
    pub path: String,
    /// The whole URL in its normalized form.
    pub serialized: String,
}

/// What `url::Url::parse` makes of a string: the text of its error when it rejects it,
/// else the scheme, the host, the path and the normalized serialization of the URL.
pub uninterp spec fn url_parts(s: Seq<char>) -> Result<(Seq<char>, Option<Seq<char>>, Seq<char>, Seq<char>), Seq<char>>;

/// What a URL serializes to once `url::Url` has cleared its user name, password, query
/// and fragment; `None` when `url::Url::parse` rejects the string.
pub uninterp spec fn url_stripped(s: Seq<char>) -> Option<Seq<char>>;

/// `percent_encoding::percent_decode_str(s).decode_utf8_lossy()`.
pub uninterp spec fn percent_decoded(s: Seq<char>) -> Seq<char>;

pub open spec fn parts_view(p: UrlParts) -> (Seq<char>, Option<Seq<char>>, Seq<char>, Seq<char>) {
    (p.scheme@, match p.host {
        Some(h) => Some(h@),
        None => None,
    }, p.path@, p.serialized@)
}

/// `url::Url::parse`, with the scheme, host (`host_str`), path and serialization (`as_str`)
/// of the result read out, or the text of the parse error. The contract names the outcome
/// and says nothing more of it.
#[verifier::external_body]
pub(crate) fn parse_url(s: &str) -> (r: Result<UrlParts, String>)
    ensures
        match r {
            Ok(p) => url_parts(s@) == Ok::<_, Seq<char>>(parts_view(p)),
            Err(e) => url_parts(s@) == Err::<(Seq<char>, Option<Seq<char>>, Seq<char>, Seq<char>), _>(e@),
        },
{
    match url::Url::parse(s) {
        Ok(u) => Ok(UrlParts {
            scheme: u.scheme().to_string(),
            host: u.host_str().map(|h| h.to_string()),
            path: u.path().to_string(),
            serialized: u.as_str().to_string(),
        }),
        Err(e) => Err(e.to_string()),
    }
}

/// `url::Url::parse`, then `set_username("")`, `set_password(None)`, `set_query(None)` and
/// `set_fragment(None)`, then `as_str`: the URL without credentials, query or fragment.
/// The contract names the outcome and says nothing more of it.
#[verifier::external_body]
pub(crate) fn strip_url_extras(s: &str) -> (r: Option<String>)
    ensures
        match r {
            Some(t) => url_stripped(s@) == Some(t@),
            None => url_stripped(s@).is_none(),
        },
{
    match url::Url::parse(s) {
        Ok(mut u) => {
            let _ = u.set_username("");
            let _ = u.set_password(None);
            u.set_query(None);
            u.set_fragment(None);
            Some(u.as_str().to_string())
        }
        Err(_) => None,
    }
}

/// `percent_encoding::percent_decode_str(s).decode_utf8_lossy()`: `%XX` sequences decoded,
/// invalid UTF-8 replaced. The contract names the outcome and says nothing more of it.
#[verifier::external_body]
pub(crate) fn percent_decode(s: &str) -> (r: String)
    ensures
        r@ == percent_decoded(s@),
{
    percent_encoding::percent_decode_str(s).decode_utf8_lossy().into_owned()
}

/// The non-empty pieces of `pieces`, in order.
pub open spec fn nonempty_pieces(pieces: Seq<Seq<char>>) -> Seq<Seq<char>>
    decreases pieces.len(),
{
    if pieces.len() == 0 {
        seq![]
    } else {
        let r = nonempty_pieces(pieces.drop_last());
        if pieces.last().len() > 0 { r.push(pieces.last()) } else { r }
    }
}

/// The non-empty path segments: `url.path_segments()` splits what follows a leading `/`
/// on `/`; a path without that `/` has none.
pub open spec fn segments_spec(path: Seq<char>) -> Seq<Seq<char>> {
    if path.len() > 0 && path[0] == '/' {
        nonempty_pieces(split_spec(path.drop_first(), '/'))
    } else {
        seq![]
    }
}

/// The non-empty segments of a URL path.
pub fn path_segments(path: &str) -> (r: Vec<String>)
    ensures
        views(r@) == segments_spec(path@),
{
    let v = chars_of(path);
    let mut out: Vec<String> = Vec::new();
    if v.len() == 0 || v[0] != '/' {
        assert(views(out@) =~= Seq::<Seq<char>>::empty());
        return out;
    }
    let rest = crate::text::slice_chars(&v, 1, v.len());
    assert(rest@ == v@.drop_first());
    let pieces = split_chars(&rest, '/');
    let ghost pv = char_views(pieces@);
    let mut i: usize = 0;
    while i < pieces.len()
        invariant
            i <= pieces.len(),
            pv == char_views(pieces@),
            views(out@) == nonempty_pieces(pv.subrange(0, i as int)),
        decreases pieces.len() - i,
    {
        assert(pv.subrange(0, i + 1).drop_last() == pv.subrange(0, i as int));
        assert(pv.subrange(0, i + 1).last() == pieces@[i as int]@);
        if pieces[i].len() > 0 {
            let s = string_from_chars(&pieces[i]);
            let ghost before = views(out@);
            out.push(s);
            assert(views(out@) =~= before.push(s@));
        }
        i += 1;
    }
    assert(pv.subrange(0, pv.len() as int) == pv);
    out
}

pub open spec fn pair_views(pairs: Seq<(String, String)>) -> Seq<(Seq<char>, Seq<char>)> {
    pairs.map_values(|p: (String, String)| (p.0@, p.1@))
}

/// What `url::Url::parse(base)` followed by `query_pairs_mut().extend_pairs(pairs)` and
/// `as_str` gives: the URL with the pairs form-encoded into its query, or the text of the
/// parse error.
pub uninterp spec fn url_with_query_spec(base: Seq<char>, pairs: Seq<(Seq<char>, Seq<char>)>) -> Result<Seq<char>, Seq<char>>;

/// `url::Url::parse(base)`, then `query_pairs_mut().extend_pairs(pairs)`, then `as_str`.
/// The contract names the outcome and says nothing more of it.
#[verifier::external_body]
pub(crate) fn url_with_query(base: &str, pairs: &Vec<(String, String)>) -> (r: Result<String, String>)
    ensures
        match r {
            Ok(u) => url_with_query_spec(base@, pair_views(pairs@)) == Ok::<Seq<char>, Seq<char>>(u@),
            Err(e) => url_with_query_spec(base@, pair_views(pairs@)) == Err::<Seq<char>, Seq<char>>(e@),
        },
{
    match url::Url::parse(base) {
        Ok(mut u) => {
            u.query_pairs_mut().extend_pairs(pairs.iter().map(|(k, v)| (k.as_str(), v.as_str())));
            Ok(u.as_str().to_string())
        }
        Err(e) => Err(e.to_string()),
    }
}

} // verus!
