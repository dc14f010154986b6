use vstd::prelude::*;

use crate::text::{chars_of, chars_eq, push_str, push_char, views};

verus! {

/// A topic of the built-in help.
#[derive(PartialEq, Eq, Structural, Clone, Copy)]
pub enum HelpTopic {
    WebSearch,
    GetSources,
    WebFetch,
    WebMap,
    Doctor,
    Configuration,
}

pub open spec fn topic_name_spec(t: HelpTopic) -> Seq<char> {
    match t {
        HelpTopic::WebSearch => "web_search"@,
        HelpTopic::GetSources => "get_sources"@,
        HelpTopic::WebFetch => "web_fetch"@,
        HelpTopic::WebMap => "web_map"@,
        HelpTopic::Doctor => "doctor"@,
        HelpTopic::Configuration => "configuration"@,
    }
}

impl HelpTopic {
    /// The topic's name, as tools and the command line spell it.
    pub fn as_str(self) -> (s: &'static str)
        ensures
            s@ == topic_name_spec(self),
    {
        match self {
            HelpTopic::WebSearch => "web_search",
            HelpTopic::GetSources => "get_sources",
            HelpTopic::WebFetch => "web_fetch",
            HelpTopic::WebMap => "web_map",
            HelpTopic::Doctor => "doctor",
            HelpTopic::Configuration => "configuration",
        }
    }
}

/// One line of the topic index.
pub struct HelpTopicSummary {
    pub name: String,
    pub summary: String,
}

/// A page of help.
pub struct HelpOutput {
    pub topic: String,
    pub summary: String,
    pub usage: Option<String>,
    pub details: Vec<String>,
    pub topics: Vec<HelpTopicSummary>,
}

/// The plain-value picture of a help page.
pub struct HelpView {
    pub topic: Seq<char>,
    pub summary: Seq<char>,
    pub usage: Option<Seq<char>>,
    pub details: Seq<Seq<char>>,
    pub topics: Seq<(Seq<char>, Seq<char>)>,
}

pub open spec fn summary_views(v: Seq<HelpTopicSummary>) -> Seq<(Seq<char>, Seq<char>)> {
    v.map_values(|s: HelpTopicSummary| (s.name@, s.summary@))
}

impl View for HelpOutput {
    type V = HelpView;

    open spec fn view(&self) -> HelpView {
        HelpView {
            topic: self.topic@,
            summary: self.summary@,
            usage: match self.usage {
                Some(u) => Some(u@),
                None => None,
            },
            details: views(self.details@),
            topics: summary_views(self.topics@),
        }
    }
}

/// The one-line summary of each topic, in index order.
pub open spec fn topic_index() -> Seq<(Seq<char>, Seq<char>)> {
    seq![
        ("web_search"@, "Search the web and optionally select one provider."@),
        ("get_sources"@, "Read and paginate sources cached by web_search."@),
        ("web_fetch"@, "Extract one known URL, with specialist API support."@),
        ("web_map"@, "Discover URLs under a site with Tavily Map."@),
        ("doctor"@, "Inspect provider configuration and connectivity."@),
        ("configuration"@, "Review provider order and runtime settings."@),
    ]
}

/// The details of a topic.
pub open spec fn topic_details(t: HelpTopic) -> Seq<Seq<char>> {
    match t {
        HelpTopic::WebSearch => seq![
            "query is required. response_format=concise omits inline page content; detailed includes it. response_format takes precedence over include_content."@,
            "Without provider, ChatGPT2API runs first when configured and the HYBRID_SEARCH_SOURCE_PROVIDERS chain supplies supplemental or fallback sources."@,
            "provider may be chatgpt2api, tavily, firecrawl, tinyfish, or exa. It selects exactly one configured provider and disables fallback."@,
            "extra_sources controls supplemental count after a usable ChatGPT2API result; with a selected source provider, it is that provider's result limit."@,
            "recency_days must be positive. include_domains and exclude_domains are enforced only by providers that support those filters; Firecrawl is skipped for filtered requests."@,
            "Use search_provider, supplemental_provider, and fallback_used to identify the route actually used. answer is a synthesized response and should be verified against source URLs."@,
            "The full source set is cached under session_id. When truncated is true, follow recovery_hint and use get_sources or web_fetch."@,
        ],
        HelpTopic::GetSources => seq![
            "session_id comes from web_search and remains valid while that session is present in the in-memory cache."@,
            "Use offset and limit for pagination. Continue with next_offset until it is absent."@,
            "When truncated is true, follow recovery_hint; use web_fetch on an individual URL for full page content."@,
        ],
        HelpTopic::WebFetch => seq![
            "GitHub issues, pull requests, and releases, StackExchange questions, arXiv papers, and Wikipedia articles use specialist public APIs."@,
            "Other URLs, or specialist extraction failures, use the configured generic fetch-provider chain."@,
            "source_type identifies the extractor actually used. fallback_reason explains why specialist extraction fell back when applicable."@,
            "max_chars limits returned content. When truncated is true, follow recovery_hint or request a larger limit if needed."@,
        ],
        HelpTopic::WebMap => seq![
            "Tavily must be configured and enabled by HYBRID_SEARCH_SOURCE_PROVIDERS."@,
            "max_results defaults to 20. web_map discovers URLs; use web_fetch to read one of them."@,
        ],
        HelpTopic::Doctor => seq![
            "Provider probes may consume a small search request, so use doctor for configuration, authentication, rate-limit, network, timeout, or response problems rather than ordinary empty results."@,
            "provider_order is the effective route; source_provider_order is the configured fallback chain."@,
            "Each provider reports enabled, configured, reachable, redacted endpoints, credential presence, status, and detail."@,
            "Common statuses include ok, not_configured, disabled, authentication, rate_limited, network, timeout, invalid_response, and provider_error."@,
        ],
        HelpTopic::Configuration => seq![
            "ChatGPT2API requires both CHATGPT2API_API_URL and CHATGPT2API_API_KEY. Tavily, Firecrawl, TinyFish, and Exa each use their own API key and optional custom endpoint."@,
            "HYBRID_SEARCH_SOURCE_PROVIDERS controls the ordered source chain. ChatGPT2API is configured separately and remains first in automatic routing."@,
            "HYBRID_SEARCH_TIMEOUT_SECONDS is the shared deadline for one tool call. Response, cache, enrichment, and inline-content limits are configurable."@,
            "HYBRID_SEARCH_LOG_PATH enables redacted JSONL diagnostic events. Search query text is not logged."@,
        ],
    }
}

pub open spec fn topic_summary(t: HelpTopic) -> Seq<char> {
    match t {
        HelpTopic::WebSearch => "Search the web through the configured provider route and cache the complete source set."@,
        HelpTopic::GetSources => "Read sources cached by an earlier web_search without issuing another search."@,
        HelpTopic::WebFetch => "Fetch and extract one known HTTP or HTTPS URL."@,
        HelpTopic::WebMap => "Discover URLs under a site or URL prefix with Tavily Map."@,
        HelpTopic::Doctor => "Probe enabled providers and return redacted runtime diagnostics."@,
        HelpTopic::Configuration => "Configure at least one search provider, then adjust routing and runtime behavior with HYBRID_SEARCH_* variables."@,
    }
}

pub open spec fn topic_usage(t: HelpTopic) -> Seq<char> {
    match t {
        HelpTopic::WebSearch => "web_search({ query, provider?, extra_sources?, response_format?, include_content?, recency_days?, include_domains?, exclude_domains? })"@,
        HelpTopic::GetSources => "get_sources({ session_id, offset?, limit? })"@,
        HelpTopic::WebFetch => "web_fetch({ url, max_chars? })"@,
        HelpTopic::WebMap => "web_map({ url, max_results? })"@,
        HelpTopic::Doctor => "doctor({})"@,
        HelpTopic::Configuration => "See README.md or README.zh-CN.md for the complete environment-variable reference."@,
    }
}

/// The help page for a topic, or the overview.
pub open spec fn help_spec(topic: Option<HelpTopic>) -> HelpView {
    match topic {
        None => HelpView {
            topic: "hybrid-search"@,
            summary: "HybridSearch is an MCP server for provider-backed web search, cached source retrieval, structured page extraction, site mapping, and provider diagnostics. Select a topic for focused help."@,
            usage: Some("help({ topic?: web_search | get_sources | web_fetch | web_map | doctor | configuration })"@),
            details: seq![],
            topics: topic_index(),
        },
        Some(t) => HelpView {
            topic: topic_name_spec(t),
            summary: topic_summary(t),
            usage: Some(topic_usage(t)),
            details: topic_details(t),
            topics: seq![],
        },
    }
}

fn summary_line(topic: HelpTopic, summary: &str) -> (s: HelpTopicSummary)
    ensures
        s.name@ == topic_name_spec(topic),
        s.summary@ == summary@,
{
    HelpTopicSummary { name: topic.as_str().to_owned(), summary: summary.to_owned() }
}

/// The index of all topics.
fn topic_summaries() -> (v: Vec<HelpTopicSummary>)
    ensures
        summary_views(v@) == topic_index(),
{
    let mut v: Vec<HelpTopicSummary> = Vec::new();
    v.push(summary_line(HelpTopic::WebSearch, "Search the web and optionally select one provider."));
    v.push(summary_line(HelpTopic::GetSources, "Read and paginate sources cached by web_search."));
    v.push(summary_line(HelpTopic::WebFetch, "Extract one known URL, with specialist API support."));
    v.push(summary_line(HelpTopic::WebMap, "Discover URLs under a site with Tavily Map."));
    v.push(summary_line(HelpTopic::Doctor, "Inspect provider configuration and connectivity."));
    v.push(summary_line(HelpTopic::Configuration, "Review provider order and runtime settings."));
    assert(summary_views(v@) =~= topic_index());
    v
}

/// A help page for one topic.
fn topic_help(topic: &str, summary: &str, usage: &str, details: Vec<String>) -> (o: HelpOutput)
    ensures
        o@ == (HelpView {
            topic: topic@,
            summary: summary@,
            usage: Some(usage@),
            details: views(details@),
            topics: seq![],
        }),
{
    let o = HelpOutput {
        topic: topic.to_owned(),
        summary: summary.to_owned(),
        usage: Some(usage.to_owned()),
        details,
        topics: Vec::new(),
    };
    assert(summary_views(o.topics@) =~= Seq::<(Seq<char>, Seq<char>)>::empty());
    o
}

/// The details of a topic, as strings.
fn details_of(topic: HelpTopic) -> (v: Vec<String>)
    ensures
        views(v@) == topic_details(topic),
{
    let mut v: Vec<String> = Vec::new();
    match topic {
        HelpTopic::WebSearch => {
            v.push("query is required. response_format=concise omits inline page content; detailed includes it. response_format takes precedence over include_content.".to_owned());
            v.push("Without provider, ChatGPT2API runs first when configured and the HYBRID_SEARCH_SOURCE_PROVIDERS chain supplies supplemental or fallback sources.".to_owned());
            v.push("provider may be chatgpt2api, tavily, firecrawl, tinyfish, or exa. It selects exactly one configured provider and disables fallback.".to_owned());
            v.push("extra_sources controls supplemental count after a usable ChatGPT2API result; with a selected source provider, it is that provider's result limit.".to_owned());
            v.push("recency_days must be positive. include_domains and exclude_domains are enforced only by providers that support those filters; Firecrawl is skipped for filtered requests.".to_owned());
            v.push("Use search_provider, supplemental_provider, and fallback_used to identify the route actually used. answer is a synthesized response and should be verified against source URLs.".to_owned());
            v.push("The full source set is cached under session_id. When truncated is true, follow recovery_hint and use get_sources or web_fetch.".to_owned());
        }
        HelpTopic::GetSources => {
            v.push("session_id comes from web_search and remains valid while that session is present in the in-memory cache.".to_owned());
            v.push("Use offset and limit for pagination. Continue with next_offset until it is absent.".to_owned());
            v.push("When truncated is true, follow recovery_hint; use web_fetch on an individual URL for full page content.".to_owned());
        }
        HelpTopic::WebFetch => {
            v.push("GitHub issues, pull requests, and releases, StackExchange questions, arXiv papers, and Wikipedia articles use specialist public APIs.".to_owned());
            v.push("Other URLs, or specialist extraction failures, use the configured generic fetch-provider chain.".to_owned());
            v.push("source_type identifies the extractor actually used. fallback_reason explains why specialist extraction fell back when applicable.".to_owned());
            v.push("max_chars limits returned content. When truncated is true, follow recovery_hint or request a larger limit if needed.".to_owned());
        }
        HelpTopic::WebMap => {
            v.push("Tavily must be configured and enabled by HYBRID_SEARCH_SOURCE_PROVIDERS.".to_owned());
            v.push("max_results defaults to 20. web_map discovers URLs; use web_fetch to read one of them.".to_owned());
        }
        HelpTopic::Doctor => {
            v.push("Provider probes may consume a small search request, so use doctor for configuration, authentication, rate-limit, network, timeout, or response problems rather than ordinary empty results.".to_owned());
            v.push("provider_order is the effective route; source_provider_order is the configured fallback chain.".to_owned());
            v.push("Each provider reports enabled, configured, reachable, redacted endpoints, credential presence, status, and detail.".to_owned());
            v.push("Common statuses include ok, not_configured, disabled, authentication, rate_limited, network, timeout, invalid_response, and provider_error.".to_owned());
        }
        HelpTopic::Configuration => {
            v.push("ChatGPT2API requires both CHATGPT2API_API_URL and CHATGPT2API_API_KEY. Tavily, Firecrawl, TinyFish, and Exa each use their own API key and optional custom endpoint.".to_owned());
            v.push("HYBRID_SEARCH_SOURCE_PROVIDERS controls the ordered source chain. ChatGPT2API is configured separately and remains first in automatic routing.".to_owned());
            v.push("HYBRID_SEARCH_TIMEOUT_SECONDS is the shared deadline for one tool call. Response, cache, enrichment, and inline-content limits are configurable.".to_owned());
            v.push("HYBRID_SEARCH_LOG_PATH enables redacted JSONL diagnostic events. Search query text is not logged.".to_owned());
        }
    }
    assert(views(v@) =~= topic_details(topic));
    v
}

/// The help page for a topic, or the overview when no topic is given.
pub fn help(topic: Option<HelpTopic>) -> (o: HelpOutput)
    ensures
        o@ == help_spec(topic),
{
    match topic {
        None => {
            let o = HelpOutput {
                topic: "hybrid-search".to_owned(),
                summary: "HybridSearch is an MCP server for provider-backed web search, cached source retrieval, structured page extraction, site mapping, and provider diagnostics. Select a topic for focused help.".to_owned(),
                usage: Some("help({ topic?: web_search | get_sources | web_fetch | web_map | doctor | configuration })".to_owned()),
                details: Vec::new(),
                topics: topic_summaries(),
            };
            assert(views(o.details@) =~= Seq::<Seq<char>>::empty());
            o
        }
        Some(t) => {
            let details = details_of(t);
            match t {
                HelpTopic::WebSearch => topic_help("web_search", "Search the web through the configured provider route and cache the complete source set.", "web_search({ query, provider?, extra_sources?, response_format?, include_content?, recency_days?, include_domains?, exclude_domains? })", details),
                HelpTopic::GetSources => topic_help("get_sources", "Read sources cached by an earlier web_search without issuing another search.", "get_sources({ session_id, offset?, limit? })", details),
                HelpTopic::WebFetch => topic_help("web_fetch", "Fetch and extract one known HTTP or HTTPS URL.", "web_fetch({ url, max_chars? })", details),
                HelpTopic::WebMap => topic_help("web_map", "Discover URLs under a site or URL prefix with Tavily Map.", "web_map({ url, max_results? })", details),
                HelpTopic::Doctor => topic_help("doctor", "Probe enabled providers and return redacted runtime diagnostics.", "doctor({})", details),
                HelpTopic::Configuration => topic_help("configuration", "Configure at least one search provider, then adjust routing and runtime behavior with HYBRID_SEARCH_* variables.", "See README.md or README.zh-CN.md for the complete environment-variable reference.", details),
            }
        }
    }
}

/// `parse_topic`: the topic a command-line word names.
pub open spec fn parse_topic_spec(value: Seq<char>) -> Option<HelpTopic> {
    if value == "web_search"@ {
        Some(HelpTopic::WebSearch)
    } else if value == "get_sources"@ {
        Some(HelpTopic::GetSources)
    } else if value == "web_fetch"@ {
        Some(HelpTopic::WebFetch)
    } else if value == "web_map"@ {
        Some(HelpTopic::WebMap)
    } else if value == "doctor"@ {
        Some(HelpTopic::Doctor)
    } else if value == "configuration"@ || value == "config"@ {
        Some(HelpTopic::Configuration)
    } else {
        None
    }
}

/// The topic a command-line word names, if any.
pub fn parse_topic(value: &str) -> (r: Option<HelpTopic>)
    ensures
        r == parse_topic_spec(value@),
{
    let v = chars_of(value);
    if chars_eq(&v, &chars_of("web_search")) {
        Some(HelpTopic::WebSearch)
    } else if chars_eq(&v, &chars_of("get_sources")) {
        Some(HelpTopic::GetSources)
    } else if chars_eq(&v, &chars_of("web_fetch")) {
        Some(HelpTopic::WebFetch)
    } else if chars_eq(&v, &chars_of("web_map")) {
        Some(HelpTopic::WebMap)
    } else if chars_eq(&v, &chars_of("doctor")) {
        Some(HelpTopic::Doctor)
    } else if chars_eq(&v, &chars_of("configuration")) || chars_eq(&v, &chars_of("config")) {
        Some(HelpTopic::Configuration)
    } else {
        None
    }
}

/// `n` spaces.
pub open spec fn spaces(n: nat) -> Seq<char> {
    Seq::new(n, |i: int| ' ')
}

/// `format!("{:<width$}", s)`: `s` padded with spaces to `width` characters.
pub open spec fn pad_spec(s: Seq<char>, width: nat) -> Seq<char> {
    if s.len() < width { s + spaces((width - s.len()) as nat) } else { s }
}

pub open spec fn topic_lines(t: Seq<(Seq<char>, Seq<char>)>) -> Seq<char>
    decreases t.len(),
{
    if t.len() == 0 {
        seq![]
    } else {
        topic_lines(t.drop_last()) + "\n  "@ + pad_spec(t.last().0, 14) + " "@ + t.last().1
    }
}

pub open spec fn detail_lines(d: Seq<Seq<char>>) -> Seq<char>
    decreases d.len(),
{
    if d.len() == 0 {
        seq![]
    } else {
        detail_lines(d.drop_last()) + "\n  - "@ + d.last()
    }
}

pub open spec fn cli_usage() -> Seq<char> {
    "\n\nUsage:\n  hybrid-search\n  hybrid-search help [topic]\n  hybrid-search --version"@
}

pub open spec fn cli_run_hint() -> Seq<char> {
    "\n\nRun `hybrid-search help <topic>` for details. The default command starts the MCP server over stdio."@
}

/// The text that the command line prints for a help page.
pub open spec fn render_spec(o: HelpView) -> Seq<char> {
    let head = o.topic + "\n\n"@ + o.summary;
    let with_usage = if o.topic == "hybrid-search"@ {
        head + cli_usage()
    } else {
        match o.usage {
            Some(u) => head + "\n\nMCP usage:\n  "@ + u,
            None => head,
        }
    };
    let with_topics = if o.topics.len() > 0 {
        with_usage + "\n\nTopics:"@ + topic_lines(o.topics) + cli_run_hint()
    } else {
        with_usage
    };
    if o.details.len() > 0 {
        with_topics + "\n\nDetails:"@ + detail_lines(o.details)
    } else {
        with_topics
    }
}

/// Appends `s` padded with spaces to `width` characters.
fn push_padded(out: &mut String, s: &str, width: usize)
    ensures
        final(out)@ == old(out)@ + pad_spec(s@, width as nat),
{
    let n = chars_of(s).len();
    push_str(out, s);
    if n < width {
        let ghost base = out@;
        let mut k: usize = n;
        while k < width
            invariant
                n <= k <= width,
                out@ == base + spaces((k - n) as nat),
            decreases width - k,
        {
            push_char(out, ' ');
            assert(spaces((k + 1 - n) as nat) =~= spaces((k - n) as nat).push(' '));
            k += 1;
        }
        assert(old(out)@ + pad_spec(s@, width as nat) =~= base + spaces((width - n) as nat));
    }
}

/// The text that `hybrid-search help` prints for a help page.
pub fn render_cli(output: &HelpOutput) -> (r: String)
    ensures
        r@ == render_spec(output@),
{
    let o = output;
    let mut rendered = String::new();
    push_str(&mut rendered, o.topic.as_str());
    push_str(&mut rendered, "\n\n");
    push_str(&mut rendered, o.summary.as_str());
    let ghost head = rendered@;
    assert(head == o@.topic + "\n\n"@ + o@.summary);
    if chars_eq(&chars_of(o.topic.as_str()), &chars_of("hybrid-search")) {
        push_str(&mut rendered, "\n\nUsage:\n  hybrid-search\n  hybrid-search help [topic]\n  hybrid-search --version");
    } else if let Some(usage) = &o.usage {
        push_str(&mut rendered, "\n\nMCP usage:\n  ");
        push_str(&mut rendered, usage.as_str());
        assert(rendered@ == head + "\n\nMCP usage:\n  "@ + usage@);
    }
    let ghost with_usage = rendered@;
    if o.topics.len() > 0 {
        push_str(&mut rendered, "\n\nTopics:");
        let ghost base = rendered@;
        let mut i: usize = 0;
        while i < o.topics.len()
            invariant
                i <= o.topics.len(),
                rendered@ == base + topic_lines(summary_views(o.topics@).subrange(0, i as int)),
            decreases o.topics.len() - i,
        {
            let ghost t = summary_views(o.topics@).subrange(0, i + 1);
            assert(t.drop_last() == summary_views(o.topics@).subrange(0, i as int));
            assert(t.last() == (o.topics@[i as int].name@, o.topics@[i as int].summary@));
            push_str(&mut rendered, "\n  ");
            push_padded(&mut rendered, o.topics[i].name.as_str(), 14);
            push_str(&mut rendered, " ");
            push_str(&mut rendered, o.topics[i].summary.as_str());
            i += 1;
        }
        assert(summary_views(o.topics@).subrange(0, o.topics@.len() as int) == summary_views(o.topics@));
        push_str(&mut rendered, "\n\nRun `hybrid-search help <topic>` for details. The default command starts the MCP server over stdio.");
    }
    let ghost with_topics = rendered@;
    if o.details.len() > 0 {
        push_str(&mut rendered, "\n\nDetails:");
        let ghost base = rendered@;
        let mut i: usize = 0;
        while i < o.details.len()
            invariant
                i <= o.details.len(),
                rendered@ == base + detail_lines(views(o.details@).subrange(0, i as int)),
            decreases o.details.len() - i,
        {
            let ghost d = views(o.details@).subrange(0, i + 1);
            assert(d.drop_last() == views(o.details@).subrange(0, i as int));
            assert(d.last() == o.details@[i as int]@);
            push_str(&mut rendered, "\n  - ");
            push_str(&mut rendered, o.details[i].as_str());
            i += 1;
        }
        assert(views(o.details@).subrange(0, o.details@.len() as int) == views(o.details@));
    }
    rendered
}

/// Every topic is read back from its own name.
pub proof fn law_topic_name_round_trip(t: HelpTopic)
    ensures
        parse_topic_spec(topic_name_spec(t)) == Some(t),
{
    reveal_strlit("web_search");
    reveal_strlit("get_sources");
    reveal_strlit("web_fetch");
    reveal_strlit("web_map");
    reveal_strlit("doctor");
    reveal_strlit("configuration");
    reveal_strlit("config");
    let n = topic_name_spec(t);
    assert("web_search"@.len() == 10 && "get_sources"@.len() == 11 && "web_fetch"@.len() == 9);
    assert("web_map"@.len() == 7 && "doctor"@.len() == 6 && "configuration"@.len() == 13);
    match t {
        HelpTopic::WebFetch => {
            assert(n[4] != "web_search"@[4]);
        },
        _ => {},
    }
}

// ---------------------------------------------------------------------------
// The command line
// ---------------------------------------------------------------------------

/// What the command line asks for.
pub enum CliCommand {
    /// Print the version.
    Version,
    /// Print a help page: the index, or a topic.
    Help(Option<HelpTopic>),
    /// Refuse the arguments with a message.
    Fail(String),
    /// Start the MCP server.
    Serve,
}

/// The abstract form of a command.
pub enum CliView {
    Version,
    Help(Option<HelpTopic>),
    Fail(Seq<char>),
    Serve,
}

pub open spec fn cli_view(c: CliCommand) -> CliView {
    match c {
        CliCommand::Version => CliView::Version,
        CliCommand::Help(t) => CliView::Help(t),
        CliCommand::Fail(m) => CliView::Fail(m@),
        CliCommand::Serve => CliView::Serve,
    }
}

/// The help for a topic word, or the message that refuses it.
pub open spec fn topic_command(word: Seq<char>) -> CliView {
    match parse_topic_spec(word) {
        Some(t) => CliView::Help(Some(t)),
        None => CliView::Fail("unknown help topic: "@ + word + "; run `hybrid-search help`"@),
    }
}

/// The command of the arguments (the program name left out): `--version` or `-V`;
/// `--help`, `-h` or `help`; `help <topic>` or `<topic> help`; nothing, which serves;
/// anything else is refused by its first argument.
pub open spec fn cli_spec(args: Seq<Seq<char>>) -> CliView {
    if args.len() == 0 {
        CliView::Serve
    } else if args.len() == 1 && (args[0] == "--version"@ || args[0] == "-V"@) {
        CliView::Version
    } else if args.len() == 1 && (args[0] == "--help"@ || args[0] == "-h"@ || args[0] == "help"@) {
        CliView::Help(None)
    } else if args.len() == 2 && args[0] == "help"@ {
        topic_command(args[1])
    } else if args.len() == 2 && args[1] == "help"@ {
        topic_command(args[0])
    } else {
        CliView::Fail("unknown argument: "@ + args[0] + "; run `hybrid-search help`"@)
    }
}

fn topic_command_exec(word: &str) -> (c: CliCommand)
    ensures
        cli_view(c) == topic_command(word@),
{
    match parse_topic(word) {
        Some(t) => CliCommand::Help(Some(t)),
        None => {
            let mut m = "unknown help topic: ".to_owned();
            push_str(&mut m, word);
            push_str(&mut m, "; run `hybrid-search help`");
            CliCommand::Fail(m)
        }
    }
}

/// The command that the arguments ask for.
pub fn parse_args(args: &Vec<String>) -> (c: CliCommand)
    ensures
        cli_view(c) == cli_spec(views(args@)),
{
    let ghost a = views(args@);
    proof {
        if args@.len() >= 1 {
            assert(a[0] == args@[0]@);
        }
        if args@.len() >= 2 {
            assert(a[1] == args@[1]@);
        }
    }
    if args.len() == 0 {
        return CliCommand::Serve;
    }
    let first = args[0].as_str();
    if args.len() == 1 && (crate::text::str_eq(first, "--version") || crate::text::str_eq(first, "-V")) {
        return CliCommand::Version;
    }
    if args.len() == 1 && (crate::text::str_eq(first, "--help") || crate::text::str_eq(first, "-h")
        || crate::text::str_eq(first, "help")) {
        return CliCommand::Help(None);
    }
    if args.len() == 2 && crate::text::str_eq(first, "help") {
        return topic_command_exec(args[1].as_str());
    }
    if args.len() == 2 && crate::text::str_eq(args[1].as_str(), "help") {
        return topic_command_exec(first);
    }
    let mut m = "unknown argument: ".to_owned();
    push_str(&mut m, first);
    push_str(&mut m, "; run `hybrid-search help`");
    CliCommand::Fail(m)
}

} // verus!
