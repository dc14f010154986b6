use vstd::prelude::*;

use crate::error::HybridSearchError;
use crate::json::{get_string, get_str, json_bool, json_get, json_items, str_field, str_or_empty, JsonValue};
use crate::sources::stackexchange::is_u64_text;
use crate::text::{
    chars_of, decimal_spec, decimal_string, is_blank, join_spec, join_strings, parse_unsigned,
    push_str, seq_less, str_eq, str_less, trim_spec, views,
};
use crate::urls::{segments_spec, UrlParts};

verus! {

// ---------------------------------------------------------------------------
// Routes
// ---------------------------------------------------------------------------

/// What a `github.com` URL names.
pub enum GithubRoute {
    /// `/{owner}/{repo}/issues/{n}` or `/{owner}/{repo}/pull/{n}`.
    IssueOrPull { owner: String, repo: String, number: String, is_pull: bool },
    /// `/{owner}/{repo}/releases/latest` (no tag) or `/{owner}/{repo}/releases/tag/{tag}`.
    Release { owner: String, repo: String, tag: Option<String> },
}

/// The abstract form of a route: owner, repo, and either (number, is_pull) or the tag.
pub enum RouteView {
    IssueOrPull(Seq<char>, Seq<char>, Seq<char>, bool),
    Release(Seq<char>, Seq<char>, Option<Seq<char>>),
}

pub open spec fn route_view(r: GithubRoute) -> RouteView {
    match r {
        GithubRoute::IssueOrPull { owner, repo, number, is_pull } => RouteView::IssueOrPull(owner@, repo@, number@, is_pull),
        GithubRoute::Release { owner, repo, tag } => RouteView::Release(owner@, repo@, match tag {
            Some(t) => Some(t@),
            None => None,
        }),
    }
}

/// The route of a URL with the given host and path: issues and pull requests by number,
/// the latest release and releases by tag, on `github.com` only.
pub open spec fn route_spec(host: Option<Seq<char>>, path: Seq<char>) -> Option<RouteView> {
    let s = segments_spec(path);
    if host != Some("github.com"@) {
        None
    } else if s.len() == 4 && (s[2] == "issues"@ || s[2] == "pull"@) && is_u64_text(s[3]) {
        Some(RouteView::IssueOrPull(s[0], s[1], s[3], s[2] == "pull"@))
    } else if s.len() == 4 && s[2] == "releases"@ && s[3] == "latest"@ {
        Some(RouteView::Release(s[0], s[1], None))
    } else if s.len() == 5 && s[2] == "releases"@ && s[3] == "tag"@ {
        Some(RouteView::Release(s[0], s[1], Some(s[4])))
    } else {
        None
    }
}

/// Every route names the repository of the URL's first two path segments, whatever the
/// page: the owner is the first segment and the repository the second, for issues, pull
/// requests and releases alike; a release's tag is the fifth segment, or none for the
/// latest release.
pub proof fn law_route_names_repository(host: Option<Seq<char>>, path: Seq<char>)
    ensures
        match route_spec(host, path) {
            Some(RouteView::IssueOrPull(owner, repo, number, _)) => {
                &&& segments_spec(path).len() == 4
                &&& owner == segments_spec(path)[0]
                &&& repo == segments_spec(path)[1]
                &&& number == segments_spec(path)[3]
            },
            Some(RouteView::Release(owner, repo, tag)) => {
                &&& segments_spec(path).len() >= 4
                &&& owner == segments_spec(path)[0]
                &&& repo == segments_spec(path)[1]
                &&& segments_spec(path)[2] == "releases"@
                &&& tag == if segments_spec(path).len() == 5 { Some(segments_spec(path)[4]) } else { None::<Seq<char>> }
            },
            None => true,
        },
{
}

/// The GitHub page, if any, that a URL names.
pub fn route(url: &UrlParts) -> (r: Option<GithubRoute>)
    ensures
        match r {
            Some(x) => route_spec(crate::model::opt_view(url.host), url.path@) == Some(route_view(x)),
            None => route_spec(crate::model::opt_view(url.host), url.path@).is_none(),
        },
{
    let is_github = match &url.host {
        Some(h) => str_eq(h.as_str(), "github.com"),
        None => false,
    };
    proof {
        reveal_strlit("github.com");
    }
    if !is_github {
        return None;
    }
    let segs = crate::urls::path_segments(url.path.as_str());
    let ghost s = views(segs@);
    proof {
        if segs@.len() >= 4 {
            assert(s[0] == segs@[0]@ && s[1] == segs@[1]@ && s[2] == segs@[2]@ && s[3] == segs@[3]@);
        }
        if segs@.len() >= 5 {
            assert(s[4] == segs@[4]@);
        }
    }
    if segs.len() == 4 && (str_eq(segs[2].as_str(), "issues") || str_eq(segs[2].as_str(), "pull"))
        && parse_unsigned(&chars_of(segs[3].as_str()), u64::MAX).is_some()
    {
        let is_pull = str_eq(segs[2].as_str(), "pull");
        return Some(GithubRoute::IssueOrPull {
            owner: segs[0].clone(),
            repo: segs[1].clone(),
            number: segs[3].clone(),
            is_pull,
        });
    }
    if segs.len() == 4 && str_eq(segs[2].as_str(), "releases") && str_eq(segs[3].as_str(), "latest") {
        return Some(GithubRoute::Release { owner: segs[0].clone(), repo: segs[1].clone(), tag: None });
    }
    if segs.len() == 5 && str_eq(segs[2].as_str(), "releases") && str_eq(segs[3].as_str(), "tag") {
        return Some(GithubRoute::Release {
            owner: segs[0].clone(),
            repo: segs[1].clone(),
            tag: Some(segs[4].clone()),
        });
    }
    None
}

/// The name under which a page of the route is reported.
pub open spec fn route_source_type(r: RouteView) -> Seq<char> {
    match r {
        RouteView::IssueOrPull(_, _, _, true) => "github_pull"@,
        RouteView::IssueOrPull(_, _, _, false) => "github_issue"@,
        RouteView::Release(_, _, _) => "github_release"@,
    }
}

/// A page built from the GitHub API, and the name under which it is reported.
pub struct GithubPage {
    pub content: String,
    pub source_type: String,
}

/// The page of a route, its content given.
pub fn page(r: &GithubRoute, content: String) -> (p: GithubPage)
    ensures
        p.content == content,
        p.source_type@ == route_source_type(route_view(*r)),
{
    GithubPage { content, source_type: source_type(r) }
}

/// The name under which a page of the route is reported.
pub fn source_type(r: &GithubRoute) -> (s: String)
    ensures
        s@ == route_source_type(route_view(*r)),
{
    match r {
        GithubRoute::IssueOrPull { is_pull, .. } => if *is_pull {
            "github_pull".to_owned()
        } else {
            "github_issue".to_owned()
        },
        GithubRoute::Release { .. } => "github_release".to_owned(),
    }
}

// ---------------------------------------------------------------------------
// Endpoints
// ---------------------------------------------------------------------------

/// `https://api.github.com/repos/{owner}/{repo}/`.
pub open spec fn repo_base(owner: Seq<char>, repo: Seq<char>) -> Seq<char> {
    "https://api.github.com/repos/"@ + owner + "/"@ + repo + "/"@
}

/// How many comments a request asks for: one more than will be shown, at most a hundred.
pub open spec fn per_page_spec(max_comments: nat) -> nat {
    if max_comments + 1 <= 100 { (max_comments + 1) as nat } else { 100 }
}

/// The endpoints of an issue or pull request: the item itself, its conversation, and for a
/// pull request its review comments and its reviews.
pub open spec fn issue_endpoints_spec(
    owner: Seq<char>,
    repo: Seq<char>,
    number: Seq<char>,
    is_pull: bool,
    max_comments: nat,
) -> (Seq<char>, Seq<char>, Seq<char>, Seq<char>) {
    let base = repo_base(owner, repo);
    let per_page = "?per_page="@ + decimal_spec(per_page_spec(max_comments));
    (
        base + (if is_pull { "pulls/"@ } else { "issues/"@ }) + number,
        base + "issues/"@ + number + "/comments"@ + per_page,
        base + "pulls/"@ + number + "/comments"@ + per_page,
        base + "pulls/"@ + number + "/reviews"@ + per_page,
    )
}

fn repo_base_string(owner: &str, repo: &str) -> (s: String)
    ensures
        s@ == repo_base(owner@, repo@),
{
    let mut s = "https://api.github.com/repos/".to_owned();
    push_str(&mut s, owner);
    push_str(&mut s, "/");
    push_str(&mut s, repo);
    push_str(&mut s, "/");
    s
}

/// The API endpoints of an issue or pull request.
pub fn issue_endpoints(
    owner: &str,
    repo: &str,
    number: &str,
    is_pull: bool,
    max_comments: usize,
) -> (r: (String, String, String, String))
    ensures
        (r.0@, r.1@, r.2@, r.3@) == issue_endpoints_spec(owner@, repo@, number@, is_pull, max_comments as nat),
{
    let base = repo_base_string(owner, repo);
    let per: usize = if max_comments < 100 { max_comments + 1 } else { 100 };
    let mut per_page = "?per_page=".to_owned();
    let d = decimal_string(per as u64);
    push_str(&mut per_page, d.as_str());
    let mut main = base.clone();
    push_str(&mut main, if is_pull { "pulls/" } else { "issues/" });
    push_str(&mut main, number);
    let mut conversation = base.clone();
    push_str(&mut conversation, "issues/");
    push_str(&mut conversation, number);
    push_str(&mut conversation, "/comments");
    push_str(&mut conversation, per_page.as_str());
    let mut review_comments = base.clone();
    push_str(&mut review_comments, "pulls/");
    push_str(&mut review_comments, number);
    push_str(&mut review_comments, "/comments");
    push_str(&mut review_comments, per_page.as_str());
    let mut reviews = base;
    push_str(&mut reviews, "pulls/");
    push_str(&mut reviews, number);
    push_str(&mut reviews, "/reviews");
    push_str(&mut reviews, per_page.as_str());
    (main, conversation, review_comments, reviews)
}

/// The endpoint of a release: by tag, or the latest.
pub open spec fn release_endpoint_spec(owner: Seq<char>, repo: Seq<char>, tag: Option<Seq<char>>) -> Seq<char> {
    match tag {
        Some(t) => repo_base(owner, repo) + "releases/tags/"@ + t,
        None => repo_base(owner, repo) + "releases/latest"@,
    }
}

/// The API endpoint of a release.
pub fn release_endpoint(owner: &str, repo: &str, tag: Option<&str>) -> (s: String)
    ensures
        s@ == release_endpoint_spec(owner@, repo@, match tag {
            Some(t) => Some(t@),
            None => None,
        }),
{
    let mut s = repo_base_string(owner, repo);
    match tag {
        Some(t) => {
            push_str(&mut s, "releases/tags/");
            push_str(&mut s, t);
        }
        None => push_str(&mut s, "releases/latest"),
    }
    s
}

// ---------------------------------------------------------------------------
// Comments
// ---------------------------------------------------------------------------

/// A comment of a conversation, a review comment, or a review.
pub struct Comment {
    pub author: String,
    pub body: String,
    pub created_at: String,
}

/// `value[object][key]` as a string, or the empty string.
pub open spec fn nested_str(v: JsonValue, object: Seq<char>, key: Seq<char>) -> Seq<char> {
    match json_get(v, object) {
        Some(o) => str_or_empty(o, key),
        None => seq![],
    }
}

/// `value[object][key]` as a string, or the empty string.
pub fn nested_string(value: &JsonValue, object: &str, key: &str) -> (r: String)
    ensures
        r@ == nested_str(*value, object@, key@),
{
    match value.get(object) {
        Some(o) => get_string(o, key),
        None => String::new(),
    }
}

/// The elements of an array, or none.
pub open spec fn array_items(v: JsonValue) -> Seq<JsonValue> {
    json_items(Some(v))
}

/// The comment that an element describes, its time taken from the member `time_key`.
pub open spec fn comment_matches(c: Comment, item: JsonValue, time_key: Seq<char>) -> bool {
    &&& c.author@ == nested_str(item, "user"@, "login"@)
    &&& c.body@ == str_or_empty(item, "body"@)
    &&& c.created_at@ == str_or_empty(item, time_key)
}

fn parse_comment(item: &JsonValue, time_key: &str) -> (c: Comment)
    ensures
        comment_matches(c, *item, time_key@),
{
    Comment {
        author: nested_string(item, "user", "login"),
        body: get_string(item, "body"),
        created_at: get_string(item, time_key),
    }
}

/// The comments of a conversation or review-comment response, in its order.
pub fn parse_comments(value: &JsonValue) -> (r: Vec<Comment>)
    ensures
        r@.len() == array_items(*value).len(),
        forall|i: int| 0 <= i < r@.len() ==> comment_matches(#[trigger] r@[i], array_items(*value)[i], "created_at"@),
{
    let mut out: Vec<Comment> = Vec::new();
    match value.as_array() {
        Some(items) => {
            let mut i: usize = 0;
            while i < items.len()
                invariant
                    i <= items.len(),
                    items@ == array_items(*value),
                    out@.len() == i,
                    forall|j: int| 0 <= j < i ==> comment_matches(#[trigger] out@[j], items@[j], "created_at"@),
                decreases items.len() - i,
            {
                out.push(parse_comment(&items[i], "created_at"));
                i += 1;
            }
        }
        None => {}
    }
    out
}

/// The reviews of a response that have a body that is not blank, as comments dated by
/// `submitted_at`.
pub open spec fn reviews_spec(items: Seq<JsonValue>) -> Seq<(Seq<char>, Seq<char>, Seq<char>)>
    decreases items.len(),
{
    if items.len() == 0 {
        seq![]
    } else {
        let rest = reviews_spec(items.drop_last());
        let it = items.last();
        if trim_spec(str_or_empty(it, "body"@)).len() == 0 {
            rest
        } else {
            rest.push((nested_str(it, "user"@, "login"@), str_or_empty(it, "body"@), str_or_empty(it, "submitted_at"@)))
        }
    }
}

/// A comment as (author, body, time).
pub open spec fn comment_view(c: Comment) -> (Seq<char>, Seq<char>, Seq<char>) {
    (c.author@, c.body@, c.created_at@)
}

pub open spec fn comment_views(s: Seq<Comment>) -> Seq<(Seq<char>, Seq<char>, Seq<char>)> {
    s.map_values(|c: Comment| comment_view(c))
}

/// The reviews of a response, those with a blank body left out.
pub fn parse_reviews(value: &JsonValue) -> (r: Vec<Comment>)
    ensures
        comment_views(r@) == reviews_spec(array_items(*value)),
{
    let mut out: Vec<Comment> = Vec::new();
    match value.as_array() {
        Some(items) => {
            let mut i: usize = 0;
            while i < items.len()
                invariant
                    i <= items.len(),
                    items@ == array_items(*value),
                    comment_views(out@) == reviews_spec(items@.take(i as int)),
                decreases items.len() - i,
            {
                assert(items@.take(i + 1).drop_last() == items@.take(i as int));
                assert(items@.take(i + 1).last() == items@[i as int]);
                let c = parse_comment(&items[i], "submitted_at");
                if !is_blank(c.body.as_str()) {
                    let ghost before = out@;
                    out.push(c);
                    assert(comment_views(out@) =~= comment_views(before).push(comment_view(c)));
                }
                i += 1;
            }
            assert(items@.take(items@.len() as int) == items@);
        }
        None => {
            assert(comment_views(out@) =~= Seq::<(Seq<char>, Seq<char>, Seq<char>)>::empty());
        }
    }
    out
}

/// `x` placed into `sorted` after every comment that is not later than it.
pub open spec fn insert_comment(sorted: Seq<Comment>, x: Comment) -> Seq<Comment>
    decreases sorted.len(),
{
    if sorted.len() == 0 {
        seq![x]
    } else if seq_less(x.created_at@, sorted.last().created_at@) {
        insert_comment(sorted.drop_last(), x).push(sorted.last())
    } else {
        sorted.push(x)
    }
}

/// The stable sort of the comments by time: comments of equal time keep their order.
pub open spec fn sort_comments_spec(s: Seq<Comment>) -> Seq<Comment>
    decreases s.len(),
{
    if s.len() == 0 {
        seq![]
    } else {
        insert_comment(sort_comments_spec(s.drop_last()), s.last())
    }
}

proof fn lemma_insert_comment_at(sorted: Seq<Comment>, x: Comment, j: int)
    requires
        0 <= j <= sorted.len(),
        forall|k: int| j <= k < sorted.len() ==> seq_less(x.created_at@, #[trigger] sorted[k].created_at@),
        j > 0 ==> !seq_less(x.created_at@, sorted[j - 1].created_at@),
    ensures
        insert_comment(sorted, x) == sorted.insert(j, x),
    decreases sorted.len(),
{
    if sorted.len() == 0 {
        assert(sorted.insert(0, x) =~= seq![x]);
    } else if j == sorted.len() {
        assert(sorted.insert(j, x) =~= sorted.push(x));
    } else {
        let t = sorted.drop_last();
        assert(seq_less(x.created_at@, sorted[sorted.len() - 1].created_at@));
        assert forall|k: int| j <= k < t.len() implies seq_less(x.created_at@, #[trigger] t[k].created_at@) by {
            assert(t[k] == sorted[k]);
        }
        if j > 0 {
            assert(t[j - 1] == sorted[j - 1]);
        }
        lemma_insert_comment_at(t, x, j);
        assert(t.insert(j, x).push(sorted.last()) =~= sorted.insert(j, x));
    }
}

/// No comment comes after one that is later than it.
pub open spec fn comments_sorted(s: Seq<Comment>) -> bool {
    forall|i: int, j: int| 0 <= i < j < s.len() ==> !seq_less(#[trigger] s[j].created_at@, #[trigger] s[i].created_at@)
}

proof fn lemma_insert_comment_sorted(sorted: Seq<Comment>, x: Comment)
    requires
        comments_sorted(sorted),
    ensures
        comments_sorted(insert_comment(sorted, x)),
        insert_comment(sorted, x).to_multiset() == sorted.to_multiset().insert(x),
    decreases sorted.len(),
{
    broadcast use vstd::seq_lib::group_to_multiset_ensures;
    if sorted.len() == 0 {
        assert(seq![x] == Seq::<Comment>::empty().push(x));
    } else {
        let init = sorted.drop_last();
        let last = sorted.last();
        assert(sorted == init.push(last));
        assert forall|i: int, j: int| 0 <= i < j < init.len() implies !seq_less(#[trigger] init[j].created_at@, #[trigger] init[i].created_at@) by {
            assert(init[i] == sorted[i] && init[j] == sorted[j]);
        }
        if seq_less(x.created_at@, last.created_at@) {
            lemma_insert_comment_sorted(init, x);
            let m = insert_comment(init, x);
            let r = m.push(last);
            assert forall|k: int| 0 <= k < m.len() implies !seq_less(last.created_at@, #[trigger] m[k].created_at@) by {
                assert(m.to_multiset().count(m[k]) > 0);
                if m[k] != x {
                    assert(init.to_multiset().count(m[k]) > 0);
                    assert(init.contains(m[k]));
                    let t = choose|t: int| 0 <= t < init.len() && init[t] == m[k];
                    assert(sorted[t] == m[k]);
                    assert(!seq_less(sorted[sorted.len() - 1].created_at@, sorted[t].created_at@));
                } else {
                    crate::text::lemma_seq_less_asym(x.created_at@, last.created_at@);
                }
            }
            assert forall|i: int, j: int| 0 <= i < j < r.len() implies !seq_less(#[trigger] r[j].created_at@, #[trigger] r[i].created_at@) by {
                if j == r.len() - 1 {
                    assert(r[j] == last);
                    assert(r[i] == m[i]);
                } else {
                    assert(r[i] == m[i] && r[j] == m[j]);
                }
            }
            assert(r.to_multiset() =~= sorted.to_multiset().insert(x));
        } else {
            let r = sorted.push(x);
            assert forall|i: int, j: int| 0 <= i < j < r.len() implies !seq_less(#[trigger] r[j].created_at@, #[trigger] r[i].created_at@) by {
                if j == r.len() - 1 {
                    assert(r[j] == x);
                    assert(r[i] == sorted[i]);
                    if i < sorted.len() - 1 {
                        assert(!seq_less(sorted[sorted.len() - 1].created_at@, sorted[i].created_at@));
                        crate::text::lemma_seq_not_less_trans(x.created_at@, last.created_at@, sorted[i].created_at@);
                    }
                } else {
                    assert(r[i] == sorted[i] && r[j] == sorted[j]);
                }
            }
        }
    }
}

/// Sorting comments orders them by time, oldest first, and keeps every comment: the
/// result is sorted and holds the same comments.
pub proof fn law_sorted_comments(s: Seq<Comment>)
    ensures
        comments_sorted(sort_comments_spec(s)),
        sort_comments_spec(s).to_multiset() == s.to_multiset(),
    decreases s.len(),
{
    broadcast use vstd::seq_lib::group_to_multiset_ensures;
    if s.len() > 0 {
        law_sorted_comments(s.drop_last());
        lemma_insert_comment_sorted(sort_comments_spec(s.drop_last()), s.last());
        assert(s == s.drop_last().push(s.last()));
    }
}

/// Sorts comments by time, oldest first; comments of equal time keep their order.
pub fn sort_comments(comments: Vec<Comment>) -> (r: Vec<Comment>)
    ensures
        r@ == sort_comments_spec(comments@),
{
    let ghost orig = comments@;
    let mut out: Vec<Comment> = Vec::new();
    for x in it: comments.into_iter()
        invariant
            orig == it.seq(),
            out@ == sort_comments_spec(orig.take(it.index() as int)),
    {
        assert(orig.take(it.index() + 1).drop_last() == orig.take(it.index() as int));
        assert(orig.take(it.index() + 1).last() == x);
        let mut j = out.len();
        while j > 0 && str_less(x.created_at.as_str(), out[j - 1].created_at.as_str())
            invariant
                j <= out.len(),
                forall|k: int| j <= k < out@.len() ==> seq_less(x.created_at@, #[trigger] out@[k].created_at@),
            decreases j,
        {
            j -= 1;
        }
        proof {
            lemma_insert_comment_at(out@, x, j as int);
        }
        out.insert(j, x);
    }
    assert(orig.take(orig.len() as int) == orig);
    out
}

/// The comments of a pull request: the conversation, then the review comments and the
/// reviews of the responses that came back, sorted by time.
pub open spec fn pull_comments_spec(
    conversation: Seq<Comment>,
    review_comments: Seq<Comment>,
    reviews: Seq<Comment>,
) -> Seq<Comment> {
    sort_comments_spec(conversation + review_comments + reviews)
}

/// Adds the review comments and the reviews of a pull request to its conversation, and
/// sorts the whole by time. A request that failed adds nothing.
pub fn pull_comments(
    conversation: Vec<Comment>,
    review_comments: Result<JsonValue, HybridSearchError>,
    reviews: Result<JsonValue, HybridSearchError>,
) -> (r: Vec<Comment>)
    ensures
        exists|rc: Seq<Comment>, rv: Seq<Comment>| {
            &&& r@ == pull_comments_spec(conversation@, rc, rv)
            &&& match review_comments {
                Ok(v) => rc.len() == array_items(v).len()
                    && forall|i: int| 0 <= i < rc.len() ==> comment_matches(#[trigger] rc[i], array_items(v)[i], "created_at"@),
                Err(_) => rc.len() == 0,
            }
            &&& match reviews {
                Ok(v) => comment_views(rv) == reviews_spec(array_items(v)),
                Err(_) => rv.len() == 0,
            }
        },
{
    let mut all = conversation;
    let rc = match &review_comments {
        Ok(v) => parse_comments(v),
        Err(_) => Vec::new(),
    };
    let rv = match &reviews {
        Ok(v) => parse_reviews(v),
        Err(_) => Vec::new(),
    };
    let ghost rcs = rc@;
    let ghost rvs = rv@;
    let ghost c0 = all@;
    let mut rc = rc;
    let mut rv = rv;
    all.append(&mut rc);
    all.append(&mut rv);
    assert(all@ == c0 + rcs + rvs);
    let r = sort_comments(all);
    assert(r@ == pull_comments_spec(c0, rcs, rvs));
    r
}

// ---------------------------------------------------------------------------
// Rendering
// ---------------------------------------------------------------------------

/// The `name` of each label that has a string name, in order.
pub open spec fn label_names(items: Seq<JsonValue>) -> Seq<Seq<char>>
    decreases items.len(),
{
    if items.len() == 0 {
        seq![]
    } else {
        let rest = label_names(items.drop_last());
        match str_field(items.last(), "name"@) {
            Some(n) => rest.push(n),
            None => rest,
        }
    }
}

fn labels_of(value: &JsonValue) -> (r: Vec<String>)
    ensures
        views(r@) == label_names(json_items(json_get(*value, "labels"@))),
{
    let items = crate::json::get_items(value, "labels");
    let mut out: Vec<String> = Vec::new();
    let mut i: usize = 0;
    while i < items.len()
        invariant
            i <= items.len(),
            items@ == json_items(json_get(*value, "labels"@)),
            views(out@) == label_names(items@.take(i as int)),
        decreases items.len() - i,
    {
        assert(items@.take(i + 1).drop_last() == items@.take(i as int));
        assert(items@.take(i + 1).last() == items@[i as int]);
        match get_str(&items[i], "name") {
            Some(n) => {
                let ghost before = out@;
                out.push(n.clone());
                assert(views(out@) =~= views(before).push(n@));
            }
            None => {}
        }
        i += 1;
    }
    assert(items@.take(items@.len() as int) == items@);
    out
}

/// What follows the state: for a pull request, whether it was merged or closed without.
pub open spec fn state_suffix_spec(v: JsonValue, is_pull: bool) -> Seq<char> {
    if is_pull && json_bool(json_get(v, "merged"@)) == Some(true) {
        " (merged)"@
    } else if is_pull && str_or_empty(v, "state"@) == "closed"@ {
        " (closed, not merged)"@
    } else {
        seq![]
    }
}

/// One rendered comment.
pub open spec fn comment_block(c: Comment) -> Seq<char> {
    "### Comment by "@ + c.author@ + " ("@ + c.created_at@ + ")\n\n"@ + c.body@ + "\n\n"@
}

pub open spec fn comment_blocks(s: Seq<Comment>) -> Seq<char>
    decreases s.len(),
{
    if s.len() == 0 {
        seq![]
    } else {
        comment_blocks(s.drop_last()) + comment_block(s.last())
    }
}

/// The head of an issue or pull request page: title, state, author, labels and body.
pub open spec fn issue_head_spec(v: JsonValue, is_pull: bool) -> Seq<char> {
    let labels = label_names(json_items(json_get(v, "labels"@)));
    "# "@ + str_or_empty(v, "title"@) + "\n\n**State:** "@ + str_or_empty(v, "state"@) + state_suffix_spec(v, is_pull)
        + "\n**Author:** "@ + nested_str(v, "user"@, "login"@) + "\n"@
        + (if labels.len() > 0 { "**Labels:** "@ + join_spec(labels, ", "@) + "\n"@ } else { seq![] })
        + "\n"@ + str_or_empty(v, "body"@) + "\n\n## Comments\n\n"@
}

/// The page of an issue or pull request: its head, and the first `max_comments` comments,
/// with how many more there were.
pub open spec fn render_issue_spec(v: JsonValue, comments: Seq<Comment>, is_pull: bool, max_comments: nat) -> Seq<char> {
    let shown = if comments.len() <= max_comments { comments } else { comments.take(max_comments as int) };
    issue_head_spec(v, is_pull) + comment_blocks(shown)
        + (if comments.len() > max_comments {
            "_"@ + decimal_spec((comments.len() - max_comments) as nat) + " additional comments were omitted._\n"@
        } else {
            seq![]
        })
}

fn state_suffix(value: &JsonValue, state: &str, is_pull: bool) -> (r: &'static str)
    requires
        state@ == str_or_empty(*value, "state"@),
    ensures
        r@ == state_suffix_spec(*value, is_pull),
{
    let merged = match value.get("merged") {
        Some(m) => m.as_bool(),
        None => None,
    };
    proof {
        reveal_strlit("");
        reveal_strlit("closed");
    }
    if is_pull && merged == Some(true) {
        " (merged)"
    } else if is_pull && str_eq(state, "closed") {
        " (closed, not merged)"
    } else {
        ""
    }
}

fn issue_head(value: &JsonValue, is_pull: bool) -> (r: String)
    ensures
        r@ == issue_head_spec(*value, is_pull),
{
    let title = get_string(value, "title");
    let state = get_string(value, "state");
    let author = nested_string(value, "user", "login");
    let body = get_string(value, "body");
    let labels = labels_of(value);
    let suffix = state_suffix(value, state.as_str(), is_pull);
    let mut output = "# ".to_owned();
    push_str(&mut output, title.as_str());
    push_str(&mut output, "\n\n**State:** ");
    push_str(&mut output, state.as_str());
    push_str(&mut output, suffix);
    push_str(&mut output, "\n**Author:** ");
    push_str(&mut output, author.as_str());
    push_str(&mut output, "\n");
    let ghost before_labels = output@;
    if labels.len() > 0 {
        push_str(&mut output, "**Labels:** ");
        let joined = join_strings(&labels, ", ");
        push_str(&mut output, joined.as_str());
        push_str(&mut output, "\n");
    } else {
        assert(output@ == before_labels + Seq::<char>::empty());
    }
    push_str(&mut output, "\n");
    push_str(&mut output, body.as_str());
    push_str(&mut output, "\n\n## Comments\n\n");
    output
}

/// Renders an issue or pull request and its comments as Markdown.
pub fn render_issue_or_pull(value: &JsonValue, comments: &Vec<Comment>, is_pull: bool, max_comments: usize) -> (r: String)
    ensures
        r@ == render_issue_spec(*value, comments@, is_pull, max_comments as nat),
{
    let mut output = issue_head(value, is_pull);
    let ghost head = output@;
    let shown = if comments.len() <= max_comments { comments.len() } else { max_comments };
    let mut i: usize = 0;
    assert(comments@.take(0) =~= Seq::<Comment>::empty());
    assert(output@ == head + comment_blocks(comments@.take(0)));
    while i < shown
        invariant
            i <= shown <= comments.len(),
            output@ == head + comment_blocks(comments@.take(i as int)),
        decreases shown - i,
    {
        assert(comments@.take(i + 1).drop_last() == comments@.take(i as int));
        assert(comments@.take(i + 1).last() == comments@[i as int]);
        let c = &comments[i];
        push_str(&mut output, "### Comment by ");
        push_str(&mut output, c.author.as_str());
        push_str(&mut output, " (");
        push_str(&mut output, c.created_at.as_str());
        push_str(&mut output, ")\n\n");
        push_str(&mut output, c.body.as_str());
        push_str(&mut output, "\n\n");
        i += 1;
    }
    proof {
        if comments@.len() <= max_comments {
            assert(comments@.take(comments@.len() as int) == comments@);
        }
    }
    let ghost mid = output@;
    if comments.len() > max_comments {
        push_str(&mut output, "_");
        let d = decimal_string((comments.len() - max_comments) as u64);
        push_str(&mut output, d.as_str());
        push_str(&mut output, " additional comments were omitted._\n");
    } else {
        assert(output@ == mid + Seq::<char>::empty());
    }
    output
}

/// The page of a release, or why there is none: a release without a tag name is refused.
pub open spec fn render_release_spec(v: JsonValue) -> Result<Seq<char>, Seq<char>> {
    let tag = str_or_empty(v, "tag_name"@);
    let name = str_or_empty(v, "name"@);
    if tag.len() == 0 {
        Err("GitHub release response is missing tag_name"@)
    } else {
        let title = if trim_spec(name).len() == 0 { tag } else { name };
        let pre = if json_bool(json_get(v, "prerelease"@)) == Some(true) { " (prerelease)"@ } else { seq![] };
        Ok("# "@ + title + "\n\n**Tag:** "@ + tag + pre + "\n**Published:** "@ + str_or_empty(v, "published_at"@)
            + "\n**Author:** "@ + nested_str(v, "author"@, "login"@) + "\n\n"@ + str_or_empty(v, "body"@) + "\n"@)
    }
}

/// Renders a release as Markdown.
pub fn render_release(value: &JsonValue) -> (r: Result<String, HybridSearchError>)
    ensures
        match render_release_spec(*value) {
            Ok(t) => r matches Ok(s) && s@ == t,
            Err(m) => r matches Err(HybridSearchError::Parse(e)) && e@ == m,
        },
{
    let tag = get_string(value, "tag_name");
    if chars_of(tag.as_str()).len() == 0 {
        return Err(HybridSearchError::Parse("GitHub release response is missing tag_name".to_owned()));
    }
    let name = get_string(value, "name");
    let title = if is_blank(name.as_str()) { tag.clone() } else { name };
    let pre = match value.get("prerelease") {
        Some(p) => p.as_bool() == Some(true),
        None => false,
    };
    let mut output = "# ".to_owned();
    push_str(&mut output, title.as_str());
    push_str(&mut output, "\n\n**Tag:** ");
    push_str(&mut output, tag.as_str());
    let ghost before_pre = output@;
    if pre {
        push_str(&mut output, " (prerelease)");
    } else {
        assert(output@ == before_pre + Seq::<char>::empty());
    }
    push_str(&mut output, "\n**Published:** ");
    let published = get_string(value, "published_at");
    push_str(&mut output, published.as_str());
    push_str(&mut output, "\n**Author:** ");
    let author = nested_string(value, "author", "login");
    push_str(&mut output, author.as_str());
    push_str(&mut output, "\n\n");
    let body = get_string(value, "body");
    push_str(&mut output, body.as_str());
    push_str(&mut output, "\n");
    Ok(output)
}

/// The page of an issue or pull request once its item and its conversation came back: an
/// error of either request is the page's error, the item's first.
pub fn issue_page(
    main: Result<JsonValue, HybridSearchError>,
    conversation: Result<JsonValue, HybridSearchError>,
) -> (r: Result<(JsonValue, Vec<Comment>), HybridSearchError>)
    ensures
        match (main, conversation) {
            (Err(e), _) => r == Err::<(JsonValue, Vec<Comment>), HybridSearchError>(e),
            (Ok(_), Err(e)) => r == Err::<(JsonValue, Vec<Comment>), HybridSearchError>(e),
            (Ok(m), Ok(c)) => r matches Ok(p) && p.0 == m && p.1@.len() == array_items(c).len()
                && forall|i: int| 0 <= i < p.1@.len() ==> comment_matches(#[trigger] p.1@[i], array_items(c)[i], "created_at"@),
        },
{
    let m = match main {
        Ok(m) => m,
        Err(e) => return Err(e),
    };
    let c = match conversation {
        Ok(c) => c,
        Err(e) => return Err(e),
    };
    let comments = parse_comments(&c);
    Ok((m, comments))
}

} // verus!
