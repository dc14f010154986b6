use hybridsearch::error::HybridSearchError;
use hybridsearch::json::{JsonNumber, JsonValue};
use hybridsearch::sources::arxiv::{self, AtomEvent};
use hybridsearch::sources::github::{self, Comment, GithubRoute};
use hybridsearch::sources::stackexchange;
use hybridsearch::sources::wikipedia;
use hybridsearch::sources::{route, SpecialistRoute};
use hybridsearch::flow::enrich_url;
use hybridsearch::urls::UrlParts;

fn s(x: &str) -> JsonValue {
    JsonValue::Str(x.to_string())
}

fn n(x: i64) -> JsonValue {
    JsonValue::Number(JsonNumber { text: x.to_string(), integer: Some(x) })
}

fn arr(v: Vec<JsonValue>) -> JsonValue {
    JsonValue::Array(v)
}

fn obj(v: Vec<(&str, JsonValue)>) -> JsonValue {
    JsonValue::Object(v.into_iter().map(|(k, x)| (k.to_string(), x)).collect())
}

fn url(text: &str) -> UrlParts {
    enrich_url(text).unwrap()
}

fn comment(author: &str, body: &str, at: &str) -> Comment {
    Comment { author: author.to_string(), body: body.to_string(), created_at: at.to_string() }
}

#[test]
fn stackexchange_hosts_and_sites() {
    assert!(stackexchange::is_stackexchange_host("unix.stackexchange.com"));
    assert!(stackexchange::is_stackexchange_host("meta.askubuntu.com"));
    assert!(!stackexchange::is_stackexchange_host("example.com"));
    assert_eq!(stackexchange::site_parameter("stackoverflow.com"), "stackoverflow");
    assert_eq!(stackexchange::site_parameter("meta.stackoverflow.com"), "meta.stackoverflow");
    assert_eq!(stackexchange::site_parameter("meta.stackexchange.com"), "meta.stackexchange");
    assert_eq!(stackexchange::site_parameter("unix.stackexchange.com"), "unix");
    assert_eq!(stackexchange::site_parameter("meta.unix.stackexchange.com"), "meta.unix");
    assert_eq!(stackexchange::base_site_parameter("mathoverflow.net"), "mathoverflow.net");
}

#[test]
fn stackexchange_question_urls() {
    assert!(stackexchange::matches(&url("https://stackoverflow.com/questions/123/some-title")));
    assert!(!stackexchange::matches(&url("https://stackoverflow.com/questions/abc")));
    assert!(!stackexchange::matches(&url("https://example.com/questions/123")));
    let (q, a) = stackexchange::request_urls(&url("https://stackoverflow.com/questions/42/x"), 5).ok().unwrap();
    assert_eq!(q, "https://api.stackexchange.com/2.3/questions/42?site=stackoverflow&filter=%21X-cWn5YrCQCchzB5B4*yqi6eO0BYWbSmsTE.VZm");
    assert_eq!(a, "https://api.stackexchange.com/2.3/questions/42/answers?site=stackoverflow&filter=%21X-cWn5YrCQCchzB5B4*yqi6eO0BYWbSmsTE.VZm&order=desc&sort=votes&pagesize=6");
    let (_, many) = stackexchange::request_urls(&url("https://unix.stackexchange.com/questions/7"), 500).ok().unwrap();
    assert!(many.ends_with("site=unix&filter=%21X-cWn5YrCQCchzB5B4*yqi6eO0BYWbSmsTE.VZm&order=desc&sort=votes&pagesize=100"));
    match stackexchange::request_urls(&url("https://stackoverflow.com/users/x"), 5) {
        Err(HybridSearchError::Parse(m)) => assert_eq!(m, "StackExchange question ID is missing"),
        _ => panic!("expected a parse error"),
    }
}

#[test]
fn stackexchange_entities() {
    assert_eq!(
        stackexchange::decode_entities("a &lt;b&gt; &amp;amp; &#65;&#x42; &quot;&apos; &bogus; & &#xD800;"),
        "a <b> &amp; AB \"' &bogus; & &#xD800;"
    );
    assert_eq!(stackexchange::decode_entities("plain"), "plain");
}

#[test]
fn stackexchange_answers_render() {
    let response = obj(vec![(
        "items",
        arr(vec![
            obj(vec![("is_accepted", JsonValue::Bool(false)), ("score", n(10)), ("owner", obj(vec![("display_name", s("Bob &amp; Co"))])), ("body_markdown", s("B1"))]),
            obj(vec![("is_accepted", JsonValue::Bool(true)), ("score", n(2)), ("owner", obj(vec![("display_name", s("Al"))])), ("body", s("A &lt;1&gt;"))]),
            obj(vec![("score", n(10)), ("body_markdown", s("C"))]),
        ]),
    )]);
    let answers = stackexchange::parse_answers(&response);
    assert_eq!(answers.len(), 3);
    assert_eq!(answers[0].author, "Bob & Co");
    assert_eq!(answers[2].author, "");
    let sorted = stackexchange::sort_answers(answers);
    let order: Vec<&str> = sorted.iter().map(|a| a.body.as_str()).collect();
    assert_eq!(order, vec!["A <1>", "B1", "C"]);
    let question = obj(vec![("title", s("How &quot;x&quot;?")), ("body_markdown", s("Q"))]);
    assert_eq!(
        stackexchange::render(&question, &sorted, 2),
        "# How \"x\"?\n\nQ\n\n---\n\n## Accepted answer (score: 2)\n\nA <1>\n\n## Answer by Bob & Co (score: 10)\n\nB1\n\n_1 additional answers were omitted._\n"
    );
}

#[test]
fn stackexchange_page() {
    let question = obj(vec![("items", arr(vec![obj(vec![("title", s("T")), ("body", s("Q"))])]))]);
    let page = stackexchange::page_from(Ok(question), Err(HybridSearchError::Timeout("x".to_string())), 5).ok().unwrap();
    assert_eq!(page.content, "# T\n\nQ\n\n---\n\n");
    assert_eq!(page.source_type, "stackexchange");
    match stackexchange::page_from(Ok(obj(vec![("items", arr(vec![]))])), Ok(obj(vec![])), 5) {
        Err(HybridSearchError::Provider(m)) => assert_eq!(m, "StackExchange returned no question"),
        _ => panic!("expected a provider error"),
    }
}

#[test]
fn github_routes() {
    match github::route(&url("https://github.com/rust-lang/rust/pull/123")) {
        Some(GithubRoute::IssueOrPull { owner, repo, number, is_pull }) => {
            assert_eq!((owner.as_str(), repo.as_str(), number.as_str(), is_pull), ("rust-lang", "rust", "123", true));
        }
        _ => panic!("expected a pull request"),
    }
    match github::route(&url("https://github.com/o/r/releases/tag/v1.0")) {
        Some(GithubRoute::Release { tag, .. }) => assert_eq!(tag.as_deref(), Some("v1.0")),
        _ => panic!("expected a release"),
    }
    match github::route(&url("https://github.com/o/r/releases/latest")) {
        Some(GithubRoute::Release { tag, .. }) => assert!(tag.is_none()),
        _ => panic!("expected a release"),
    }
    assert!(github::route(&url("https://github.com/o/r/issues/abc")).is_none());
    assert!(github::route(&url("https://gitlab.com/o/r/issues/1")).is_none());
    let r = github::route(&url("https://github.com/o/r/issues/9")).unwrap();
    assert_eq!(github::page(&r, "c".to_string()).source_type, "github_issue");
}

#[test]
fn github_endpoints() {
    let (main, conversation, review_comments, reviews) = github::issue_endpoints("o", "r", "7", true, 30);
    assert_eq!(main, "https://api.github.com/repos/o/r/pulls/7");
    assert_eq!(conversation, "https://api.github.com/repos/o/r/issues/7/comments?per_page=31");
    assert_eq!(review_comments, "https://api.github.com/repos/o/r/pulls/7/comments?per_page=31");
    assert_eq!(reviews, "https://api.github.com/repos/o/r/pulls/7/reviews?per_page=31");
    let (issue, _, _, _) = github::issue_endpoints("o", "r", "7", false, 500);
    assert_eq!(issue, "https://api.github.com/repos/o/r/issues/7");
    assert!(github::issue_endpoints("o", "r", "7", false, 500).1.ends_with("per_page=100"));
    assert_eq!(github::release_endpoint("o", "r", Some("v1")), "https://api.github.com/repos/o/r/releases/tags/v1");
    assert_eq!(github::release_endpoint("o", "r", None), "https://api.github.com/repos/o/r/releases/latest");
}

#[test]
fn github_comments_are_merged_and_sorted() {
    let conversation = arr(vec![obj(vec![("user", obj(vec![("login", s("a"))])), ("body", s("first")), ("created_at", s("2024-01-03"))])]);
    let issue = obj(vec![("title", s("T"))]);
    let (main, comments) = github::issue_page(Ok(issue), Ok(conversation)).ok().unwrap();
    assert_eq!(github::nested_string(&main, "user", "login"), "");
    let reviews = arr(vec![
        obj(vec![("user", obj(vec![("login", s("r"))])), ("body", s("  ")), ("submitted_at", s("2024-01-01"))]),
        obj(vec![("user", obj(vec![("login", s("r"))])), ("body", s("agreed")), ("submitted_at", s("2024-01-02"))]),
    ]);
    let all = github::pull_comments(comments, Err(HybridSearchError::Timeout("x".to_string())), Ok(reviews));
    let bodies: Vec<&str> = all.iter().map(|c| c.body.as_str()).collect();
    assert_eq!(bodies, vec!["agreed", "first"]);
    let sorted = github::sort_comments(vec![comment("x", "2", "b"), comment("y", "1", "a"), comment("z", "3", "b")]);
    let order: Vec<&str> = sorted.iter().map(|c| c.body.as_str()).collect();
    assert_eq!(order, vec!["1", "2", "3"]);
    match github::issue_page(Err(HybridSearchError::Timeout("main".to_string())), Err(HybridSearchError::Timeout("c".to_string()))) {
        Err(HybridSearchError::Timeout(m)) => assert_eq!(m, "main"),
        _ => panic!("expected the item's error"),
    }
}

#[test]
fn github_issue_renders() {
    let value = obj(vec![
        ("title", s("T")),
        ("state", s("closed")),
        ("merged", JsonValue::Bool(false)),
        ("user", obj(vec![("login", s("u"))])),
        ("body", s("B")),
        ("labels", arr(vec![obj(vec![("name", s("bug"))]), obj(vec![("name", s("ui"))]), obj(vec![("x", n(1))])])),
    ]);
    let comments = vec![comment("a", "one", "t1"), comment("b", "two", "t2")];
    assert_eq!(
        github::render_issue_or_pull(&value, &comments, true, 1),
        "# T\n\n**State:** closed (closed, not merged)\n**Author:** u\n**Labels:** bug, ui\n\nB\n\n## Comments\n\n### Comment by a (t1)\n\none\n\n_1 additional comments were omitted._\n"
    );
    let merged = obj(vec![("title", s("M")), ("state", s("closed")), ("merged", JsonValue::Bool(true))]);
    assert_eq!(
        github::render_issue_or_pull(&merged, &vec![], true, 5),
        "# M\n\n**State:** closed (merged)\n**Author:** \n\n\n\n## Comments\n\n"
    );
}

#[test]
fn github_release_renders() {
    match github::render_release(&obj(vec![("name", s("x"))])) {
        Err(HybridSearchError::Parse(m)) => assert_eq!(m, "GitHub release response is missing tag_name"),
        _ => panic!("expected a parse error"),
    }
    let release = obj(vec![
        ("tag_name", s("v1")),
        ("name", s("  ")),
        ("prerelease", JsonValue::Bool(true)),
        ("published_at", s("2024")),
        ("author", obj(vec![("login", s("a"))])),
        ("body", s("notes")),
    ]);
    assert_eq!(
        github::render_release(&release).ok().unwrap(),
        "# v1\n\n**Tag:** v1 (prerelease)\n**Published:** 2024\n**Author:** a\n\nnotes\n"
    );
}

#[test]
fn wikipedia_articles() {
    assert!(wikipedia::matches(&url("https://en.wikipedia.org/wiki/Rust_(programming_language)")));
    assert!(!wikipedia::matches(&url("https://en.wikipedia.org/wiki/Talk:Rust")));
    assert!(!wikipedia::matches(&url("https://en.wikipedia.org/wiki/talk%3ARust")));
    assert!(!wikipedia::matches(&url("https://en.wikipedia.org/wiki/")));
    assert!(!wikipedia::matches(&url("https://wikipedia.org/wiki/Rust")));
    assert!(wikipedia::is_excluded_namespace("CATEGORY:Languages"));
    assert!(!wikipedia::is_excluded_namespace("Categorical_data"));
    assert_eq!(
        wikipedia::request_url(&url("https://en.wikipedia.org/wiki/Rust_(programming_language)")).ok().unwrap(),
        "https://en.wikipedia.org/w/api.php?action=query&prop=extracts&explaintext=true&titles=Rust_%28programming_language%29&format=json&redirects=1"
    );
    match wikipedia::request_url(&url("https://example.org/wiki/X")) {
        Err(HybridSearchError::Parse(m)) => assert_eq!(m, "invalid Wikipedia host"),
        _ => panic!("expected a parse error"),
    }
}

#[test]
fn wikipedia_pages() {
    let response = obj(vec![("query", obj(vec![("pages", obj(vec![("123", obj(vec![("title", s("Rust")), ("extract", s("Rust is a language."))]))]))]))]);
    let page = wikipedia::page_from(Ok(response)).ok().unwrap();
    assert_eq!(page.content, "# Rust\n\nRust is a language.\n");
    assert_eq!(page.source_type, "wikipedia");
    let blank = obj(vec![("query", obj(vec![("pages", obj(vec![("1", obj(vec![("extract", s(" "))]))]))]))]);
    match wikipedia::page_from(Ok(blank)) {
        Err(HybridSearchError::Provider(m)) => assert_eq!(m, "Wikipedia returned empty article content"),
        _ => panic!("expected a provider error"),
    }
    match wikipedia::page_from(Ok(obj(vec![]))) {
        Err(HybridSearchError::Provider(m)) => assert_eq!(m, "Wikipedia returned no page"),
        _ => panic!("expected a provider error"),
    }
}

const FEED: &str = "<?xml version=\"1.0\" encoding=\"UTF-8\"?>\n<feed xmlns=\"http://www.w3.org/2005/Atom\">\n<title>ArXiv Query</title>\n<entry>\n<title> A  Paper &amp; More </title>\n<summary>\n Abstract text.\n</summary>\n<author><name>Ada</name></author>\n<author><name> Bob </name></author>\n<link href=\"http://arxiv.org/abs/1\" rel=\"alternate\" type=\"text/html\"/>\n<link title=\"pdf\" href=\"http://arxiv.org/pdf/1\" rel=\"related\" type=\"application/pdf\"/>\n<category term=\"cs.LG\" scheme=\"x\"/>\n<category term=\"cs.AI\"/>\n</entry>\n</feed>\n";

#[test]
fn arxiv_urls() {
    assert!(arxiv::matches(&url("https://arxiv.org/abs/2401.00001")));
    assert!(arxiv::matches(&url("https://arxiv.org/pdf/2401.00001v2.pdf")));
    assert!(!arxiv::matches(&url("https://arxiv.org/abs/")));
    assert!(!arxiv::matches(&url("https://www.arxiv.org/abs/1")));
    assert_eq!(arxiv::extract_id("/pdf/2401.00001v2.pdf").as_deref(), Some("2401.00001v2"));
    assert_eq!(arxiv::extract_id("/abs/x").as_deref(), Some("x"));
    assert_eq!(arxiv::extract_id("/list/x"), None);
    assert_eq!(arxiv::request_url("/abs/2401.00001").ok().unwrap(), "https://export.arxiv.org/api/query?id_list=2401.00001");
    match arxiv::request_url("/abs/") {
        Err(HybridSearchError::Parse(m)) => assert_eq!(m, "arXiv paper ID is missing"),
        _ => panic!("expected a parse error"),
    }
}

#[test]
fn arxiv_feed_parses_and_renders() {
    let paper = arxiv::parse_atom(FEED).ok().unwrap();
    assert_eq!(paper.title, "A  Paper & More");
    assert_eq!(paper.summary, "Abstract text.");
    assert_eq!(paper.authors, vec!["Ada".to_string(), "Bob".to_string()]);
    assert_eq!(paper.categories, vec!["cs.LG".to_string(), "cs.AI".to_string()]);
    assert_eq!(paper.abstract_url, "http://arxiv.org/abs/1");
    assert_eq!(paper.pdf_url, "http://arxiv.org/pdf/1");
    let page = arxiv::page_from(Ok(FEED.to_string())).ok().unwrap();
    assert_eq!(
        page.content,
        "# A  Paper & More\n\n**Authors:** Ada, Bob\n\n**Categories:** cs.LG, cs.AI\n\n**Links:** [Abstract](http://arxiv.org/abs/1) | [PDF](http://arxiv.org/pdf/1)\n\n## Abstract\n\nAbstract text.\n"
    );
    assert_eq!(page.source_type, "arxiv");
}

#[test]
fn arxiv_feed_errors() {
    match arxiv::parse_atom("<feed><entry><summary>s</summary></entry></feed>") {
        Err(HybridSearchError::Parse(m)) => assert_eq!(m, "arXiv response is missing a title or abstract"),
        _ => panic!("expected a parse error"),
    }
    match arxiv::parse_atom("<feed><entry><title>x</wrong></entry></feed>") {
        Err(HybridSearchError::Parse(m)) => assert!(m.starts_with("invalid arXiv XML: ")),
        _ => panic!("expected a parse error"),
    }
    let events = vec![
        AtomEvent::Start("entry".to_string()),
        AtomEvent::Start("title".to_string()),
        AtomEvent::Text(Err("bad entity".to_string())),
    ];
    match arxiv::parse_atom_events(&events) {
        Err(HybridSearchError::Parse(m)) => assert_eq!(m, "invalid arXiv XML text: bad entity"),
        _ => panic!("expected a parse error"),
    }
    let stops = vec![
        AtomEvent::Start("entry".to_string()),
        AtomEvent::Start("title".to_string()),
        AtomEvent::Text(Ok("T".to_string())),
        AtomEvent::End("title".to_string()),
        AtomEvent::Start("summary".to_string()),
        AtomEvent::Text(Ok("S".to_string())),
        AtomEvent::End("summary".to_string()),
        AtomEvent::Eof,
        AtomEvent::Error("after the end".to_string()),
    ];
    let paper = arxiv::parse_atom_events(&stops).ok().unwrap();
    assert_eq!((paper.title.as_str(), paper.summary.as_str()), ("T", "S"));
}

#[test]
fn specialist_routing() {
    assert!(matches!(route(&url("https://github.com/o/r/issues/1")), Some(SpecialistRoute::Github(_))));
    assert!(matches!(route(&url("https://superuser.com/questions/1/x")), Some(SpecialistRoute::StackExchange)));
    assert!(matches!(route(&url("https://arxiv.org/abs/1")), Some(SpecialistRoute::Arxiv)));
    assert!(matches!(route(&url("https://de.wikipedia.org/wiki/Rust")), Some(SpecialistRoute::Wikipedia)));
    assert!(route(&url("https://example.com/")).is_none());
}

#[test]
fn arxiv_feed_text_escapes() {
    match arxiv::parse_atom("<feed><entry><title>a &bogus; b</title><summary>s</summary></entry></feed>") {
        Err(HybridSearchError::Parse(m)) => assert!(m.starts_with("invalid arXiv XML text: ")),
        _ => panic!("expected a text error"),
    }
    let paper = arxiv::parse_atom("<feed><entry><title>x &lt; y &#65;</title><summary>s&amp;t</summary></entry></feed>").ok().unwrap();
    assert_eq!(paper.title, "x < y A");
    assert_eq!(paper.summary, "s&t");
}
