use vstd::prelude::*;

use quick_xml::events::Event;
use quick_xml::reader::Reader;

use crate::error::HybridSearchError;
use crate::sources::SpecialistPage;
use crate::text::{
    chars_of, ends_with_chars, ends_with_spec, join_spec, join_strings, push_str, starts_with_chars,
    starts_with_spec, str_eq, string_from_range, trim_spec, trim_str, views,
};
use crate::urls::{pair_views, url_with_query, url_with_query_spec, UrlParts};

verus! {

// ---------------------------------------------------------------------------
// Feed events and the parser's state
// ---------------------------------------------------------------------------

/// An event of an Atom feed as the parser reads it.
pub enum AtomEvent {
    /// A start tag and its name.
    Start(String),
    /// An empty-element tag, its name and its attributes.
    Empty(String, Vec<(String, String)>),
    /// Character data: its decoded text, or why it could not be decoded.
    Text(Result<String, String>),
    /// An end tag and its name.
    End(String),
    /// The end of the document.
    Eof,
    /// Anything else: comments, declarations, CDATA.
    Other,
    /// A malformed document, and the reader's message.
    Error(String),
}

/// What the feed parser reads of an event.
pub ghost enum AtomEventView {
    Start(Seq<char>),
    Empty(Seq<char>, Seq<(Seq<char>, Seq<char>)>),
    Text(Result<Seq<char>, Seq<char>>),
    End(Seq<char>),
    Eof,
    Other,
    Error(Seq<char>),
}

impl View for AtomEvent {
    type V = AtomEventView;

    open spec fn view(&self) -> AtomEventView {
        match self {
            AtomEvent::Start(n) => AtomEventView::Start(n@),
            AtomEvent::Empty(n, attrs) => AtomEventView::Empty(n@, pair_views(attrs@)),
            AtomEvent::Text(t) => AtomEventView::Text(match t {
                Ok(x) => Ok(x@),
                Err(m) => Err(m@),
            }),
            AtomEvent::End(n) => AtomEventView::End(n@),
            AtomEvent::Eof => AtomEventView::Eof,
            AtomEvent::Other => AtomEventView::Other,
            AtomEvent::Error(m) => AtomEventView::Error(m@),
        }
    }
}

/// The views of a sequence of events.
pub open spec fn event_views(events: Seq<AtomEvent>) -> Seq<AtomEventView> {
    events.map_values(|e: AtomEvent| e@)
}

// ---------------------------------------------------------------------------
// The XML reader of quick-xml
// ---------------------------------------------------------------------------

/// An event of the XML reader, with a tag's name or a text's content as its bytes.
pub enum RawEvent {
    Start(Vec<u8>),
    Empty(Vec<u8>),
    Text(Vec<u8>),
    End(Vec<u8>),
    Other,
}

pub ghost enum RawEventView {
    Start(Seq<u8>),
    Empty(Seq<u8>),
    Text(Seq<u8>),
    End(Seq<u8>),
    Other,
}

impl View for RawEvent {
    type V = RawEventView;

    open spec fn view(&self) -> RawEventView {
        match self {
            RawEvent::Start(n) => RawEventView::Start(n@),
            RawEvent::Empty(n) => RawEventView::Empty(n@),
            RawEvent::Text(t) => RawEventView::Text(t@),
            RawEvent::End(n) => RawEventView::End(n@),
            RawEvent::Other => RawEventView::Other,
        }
    }
}

pub open spec fn raw_views(events: Seq<RawEvent>) -> Seq<RawEventView> {
    events.map_values(|e: RawEvent| e@)
}

pub open spec fn byte_pairs(pairs: Seq<(Vec<u8>, Vec<u8>)>) -> Seq<(Seq<u8>, Seq<u8>)> {
    pairs.map_values(|p: (Vec<u8>, Vec<u8>)| (p.0@, p.1@))
}

pub open spec fn attribute_list_views(lists: Seq<Vec<(Vec<u8>, Vec<u8>)>>) -> Seq<Seq<(Seq<u8>, Seq<u8>)>> {
    lists.map_values(|l: Vec<(Vec<u8>, Vec<u8>)>| byte_pairs(l@))
}

/// The events that quick-xml's `Reader::from_str` yields for a text through `read_event`,
/// up to the end of the document, and the text of the reader's error when one ended the
/// reading. The reader's events depend on the text alone.
pub uninterp spec fn xml_raw_events(xml: Seq<char>) -> (Seq<RawEventView>, Option<Seq<char>>);

/// `Reader::from_str(xml)` read with `read_event` to the end of the document or its first
/// error: start, empty and end tags with the bytes of `name()`, texts with their bytes,
/// any other event as `Other`, and the error's text.
#[verifier::external_body]
fn read_raw_events(xml: &str) -> (r: (Vec<RawEvent>, Option<String>))
    ensures
        raw_views(r.0@) == xml_raw_events(xml@).0,
        crate::model::opt_view(r.1) == xml_raw_events(xml@).1,
{
    let mut reader = Reader::from_str(xml);
    let mut out = Vec::new();
    loop {
        out.push(match reader.read_event() {
            Ok(Event::Start(t)) => RawEvent::Start(t.name().0.to_vec()),
            Ok(Event::Empty(t)) => RawEvent::Empty(t.name().0.to_vec()),
            Ok(Event::Text(t)) => RawEvent::Text(t.to_vec()),
            Ok(Event::End(t)) => RawEvent::End(t.name().0.to_vec()),
            Ok(Event::Eof) => return (out, None),
            Ok(_) => RawEvent::Other,
            Err(x) => return (out, Some(x.to_string())),
        });
    }
}

/// For each event that `Reader::from_str(xml)` yields through `read_event` up to the end
/// of the document or its first error, the attributes of an empty tag, or none for any
/// other event.
pub uninterp spec fn xml_attribute_lists(xml: Seq<char>) -> Seq<Seq<(Seq<u8>, Seq<u8>)>>;

/// `Reader::from_str(xml)` read with `read_event` as `read_raw_events` reads it: for an
/// empty tag the bytes of the key and value of each well-formed attribute of
/// `attributes()`, in order; for any other event an empty list.
#[verifier::external_body]
fn read_attribute_lists(xml: &str) -> (r: Vec<Vec<(Vec<u8>, Vec<u8>)>>)
    ensures
        attribute_list_views(r@) == xml_attribute_lists(xml@),
{
    let mut reader = Reader::from_str(xml);
    let mut out = Vec::new();
    loop {
        out.push(match reader.read_event() {
            Ok(Event::Empty(t)) => t.attributes().flatten().map(|a| (a.key.0.to_vec(), a.value.to_vec())).collect(),
            Ok(Event::Eof) | Err(_) => return out,
            Ok(_) => Vec::new(),
        });
    }
}

/// What `String::from_utf8_lossy` makes of bytes.
pub uninterp spec fn utf8_lossy_text(bytes: Seq<u8>) -> Seq<char>;

/// `String::from_utf8_lossy`: the bytes as text, each invalid sequence replaced.
#[verifier::external_body]
fn utf8_lossy(bytes: &Vec<u8>) -> (r: String)
    ensures
        r@ == utf8_lossy_text(bytes@),
{
    String::from_utf8_lossy(bytes).into_owned()
}

/// What `quick_xml::escape::unescape` makes of a text: the text with its entity and
/// character references replaced, or the text of quick-xml's error.
pub uninterp spec fn xml_unescaped(text: Seq<char>) -> Result<Seq<char>, Seq<char>>;

/// `quick_xml::escape::unescape`, its error written as quick-xml's `Error` writes it.
#[verifier::external_body]
fn unescape_xml(text: &str) -> (r: Result<String, String>)
    ensures
        match (r, xml_unescaped(text@)) {
            (Ok(t), Ok(u)) => t@ == u,
            (Err(m), Err(n)) => m@ == n,
            _ => false,
        },
{
    quick_xml::escape::unescape(text).map(|t| t.into_owned()).map_err(|e| quick_xml::Error::from(e).to_string())
}

/// What the feed parser reads of a raw event and its attributes: names and texts decoded as
/// UTF-8, a text's references replaced.
pub open spec fn feed_event(raw: RawEventView, attrs: Seq<(Seq<u8>, Seq<u8>)>) -> AtomEventView {
    match raw {
        RawEventView::Start(n) => AtomEventView::Start(utf8_lossy_text(n)),
        RawEventView::Empty(n) => AtomEventView::Empty(
            utf8_lossy_text(n),
            attrs.map_values(|p: (Seq<u8>, Seq<u8>)| (utf8_lossy_text(p.0), utf8_lossy_text(p.1))),
        ),
        RawEventView::Text(b) => AtomEventView::Text(xml_unescaped(utf8_lossy_text(b))),
        RawEventView::End(n) => AtomEventView::End(utf8_lossy_text(n)),
        RawEventView::Other => AtomEventView::Other,
    }
}

/// The attributes read for event `i`, none when the attribute reading stopped earlier.
pub open spec fn attributes_at(lists: Seq<Seq<(Seq<u8>, Seq<u8>)>>, i: int) -> Seq<(Seq<u8>, Seq<u8>)> {
    if 0 <= i < lists.len() { lists[i] } else { seq![] }
}

/// The events of a feed as the parser reads them: each event of the reader, then the
/// reader's error when one ended the reading.
pub open spec fn feed_events(xml: Seq<char>) -> Seq<AtomEventView> {
    let raw = xml_raw_events(xml).0;
    let lists = xml_attribute_lists(xml);
    let events = Seq::new(raw.len(), |i: int| feed_event(raw[i], attributes_at(lists, i)));
    match xml_raw_events(xml).1 {
        Some(m) => events.push(AtomEventView::Error(m)),
        None => events,
    }
}

/// The attributes as text.
fn text_pairs(attrs: &Vec<(Vec<u8>, Vec<u8>)>) -> (r: Vec<(String, String)>)
    ensures
        pair_views(r@) == byte_pairs(attrs@).map_values(|p: (Seq<u8>, Seq<u8>)| (utf8_lossy_text(p.0), utf8_lossy_text(p.1))),
{
    let ghost want = byte_pairs(attrs@).map_values(|p: (Seq<u8>, Seq<u8>)| (utf8_lossy_text(p.0), utf8_lossy_text(p.1)));
    let mut out: Vec<(String, String)> = Vec::new();
    let mut i: usize = 0;
    while i < attrs.len()
        invariant
            i <= attrs.len(),
            want == byte_pairs(attrs@).map_values(|p: (Seq<u8>, Seq<u8>)| (utf8_lossy_text(p.0), utf8_lossy_text(p.1))),
            out@.len() == i,
            forall|j: int| 0 <= j < i ==> ((#[trigger] out@[j]).0@, out@[j].1@) == want[j],
        decreases attrs.len() - i,
    {
        let k = utf8_lossy(&attrs[i].0);
        let v = utf8_lossy(&attrs[i].1);
        out.push((k, v));
        i += 1;
    }
    assert(pair_views(out@) =~= want);
    out
}

/// The event the feed parser reads of a raw event.
fn atom_event(raw: &RawEvent, attrs: &Vec<(Vec<u8>, Vec<u8>)>) -> (e: AtomEvent)
    ensures
        e@ == feed_event(raw@, byte_pairs(attrs@)),
{
    match raw {
        RawEvent::Start(n) => AtomEvent::Start(utf8_lossy(n)),
        RawEvent::Empty(n) => AtomEvent::Empty(utf8_lossy(n), text_pairs(attrs)),
        RawEvent::Text(b) => {
            let t = utf8_lossy(b);
            AtomEvent::Text(unescape_xml(t.as_str()))
        },
        RawEvent::End(n) => AtomEvent::End(utf8_lossy(n)),
        RawEvent::Other => AtomEvent::Other,
    }
}

/// Reads a feed with quick-xml into the events the parser reads.
fn read_feed(xml: &str) -> (events: Vec<AtomEvent>)
    ensures
        event_views(events@) == feed_events(xml@),
{
    let (raw, error) = read_raw_events(xml);
    let lists = read_attribute_lists(xml);
    let ghost rv = xml_raw_events(xml@).0;
    let ghost lv = xml_attribute_lists(xml@);
    let none: Vec<(Vec<u8>, Vec<u8>)> = Vec::new();
    let mut out: Vec<AtomEvent> = Vec::new();
    let mut i: usize = 0;
    while i < raw.len()
        invariant
            i <= raw.len(),
            raw_views(raw@) == rv,
            attribute_list_views(lists@) == lv,
            none@.len() == 0,
            out@.len() == i,
            forall|j: int| 0 <= j < i ==> (#[trigger] out@[j])@ == feed_event(rv[j], attributes_at(lv, j)),
        decreases raw.len() - i,
    {
        let attrs = if i < lists.len() { &lists[i] } else { &none };
        proof {
            assert(rv[i as int] == raw@[i as int]@);
            if i < lists.len() {
                assert(lv[i as int] == byte_pairs(lists@[i as int]@));
            } else {
                assert(byte_pairs(none@) =~= seq![]);
            }
        }
        out.push(atom_event(&raw[i], attrs));
        i += 1;
    }
    let ghost events = Seq::new(rv.len(), |j: int| feed_event(rv[j], attributes_at(lv, j)));
    assert(event_views(out@) =~= events);
    match error {
        Some(m) => {
            let ghost before = out@;
            out.push(AtomEvent::Error(m));
            assert(event_views(out@) =~= event_views(before).push(AtomEventView::Error(m@)));
        },
        None => {},
    }
    out
}

/// The element whose text is being collected.
#[derive(PartialEq, Eq, Structural, Clone, Copy)]
pub enum AtomField {
    Idle,
    Title,
    Summary,
    Author,
}

/// What the parser knows after some events.
pub struct AtomState {
    pub in_entry: bool,
    pub in_author: bool,
    pub field: AtomField,
    pub text: String,
    pub title: String,
    pub summary: String,
    pub authors: Vec<String>,
    pub categories: Vec<String>,
    pub abstract_url: String,
    pub pdf_url: String,
}

pub ghost struct AtomView {
    pub in_entry: bool,
    pub in_author: bool,
    pub field: AtomField,
    pub text: Seq<char>,
    pub title: Seq<char>,
    pub summary: Seq<char>,
    pub authors: Seq<Seq<char>>,
    pub categories: Seq<Seq<char>>,
    pub abstract_url: Seq<char>,
    pub pdf_url: Seq<char>,
}

impl View for AtomState {
    type V = AtomView;

    open spec fn view(&self) -> AtomView {
        AtomView {
            in_entry: self.in_entry,
            in_author: self.in_author,
            field: self.field,
            text: self.text@,
            title: self.title@,
            summary: self.summary@,
            authors: views(self.authors@),
            categories: views(self.categories@),
            abstract_url: self.abstract_url@,
            pdf_url: self.pdf_url@,
        }
    }
}

/// The state before the first event.
pub open spec fn initial_view() -> AtomView {
    AtomView {
        in_entry: false,
        in_author: false,
        field: AtomField::Idle,
        text: seq![],
        title: seq![],
        summary: seq![],
        authors: seq![],
        categories: seq![],
        abstract_url: seq![],
        pdf_url: seq![],
    }
}

/// The value of the first attribute named `key`.
pub open spec fn attribute_spec(attrs: Seq<(Seq<char>, Seq<char>)>, key: Seq<char>) -> Option<Seq<char>>
    decreases attrs.len(),
{
    if attrs.len() == 0 {
        None
    } else if attrs[0].0 == key {
        Some(attrs[0].1)
    } else {
        attribute_spec(attrs.drop_first(), key)
    }
}

/// The value of an attribute, or the empty string.
pub open spec fn attribute_or_empty(attrs: Seq<(Seq<char>, Seq<char>)>, key: Seq<char>) -> Seq<char> {
    match attribute_spec(attrs, key) {
        Some(v) => v,
        None => seq![],
    }
}

/// What a start tag does: `entry` opens an entry; inside one, `author` opens an author and
/// `title` and `summary` start collecting text; inside an author, so does `name`.
pub open spec fn on_start(s: AtomView, name: Seq<char>) -> AtomView {
    if name == "entry"@ {
        AtomView { in_entry: true, ..s }
    } else if name == "author"@ && s.in_entry {
        AtomView { in_author: true, ..s }
    } else if name == "title"@ && s.in_entry {
        AtomView { field: AtomField::Title, text: seq![], ..s }
    } else if name == "summary"@ && s.in_entry {
        AtomView { field: AtomField::Summary, text: seq![], ..s }
    } else if name == "name"@ && s.in_author {
        AtomView { field: AtomField::Author, text: seq![], ..s }
    } else {
        s
    }
}

/// What an empty tag inside an entry does: a `category` adds its `term`; a `link` of type
/// `application/pdf` sets the PDF link, else one with `rel="alternate"` sets the abstract link.
pub open spec fn on_empty(s: AtomView, name: Seq<char>, attrs: Seq<(Seq<char>, Seq<char>)>) -> AtomView {
    if !s.in_entry {
        s
    } else if name == "category"@ {
        match attribute_spec(attrs, "term"@) {
            Some(t) => AtomView { categories: s.categories.push(t), ..s },
            None => s,
        }
    } else if name == "link"@ {
        let href = attribute_or_empty(attrs, "href"@);
        if attribute_or_empty(attrs, "type"@) == "application/pdf"@ {
            AtomView { pdf_url: href, ..s }
        } else if attribute_or_empty(attrs, "rel"@) == "alternate"@ {
            AtomView { abstract_url: href, ..s }
        } else {
            s
        }
    } else {
        s
    }
}

/// What an end tag does: it stores the collected text, trimmed, in the field it was
/// collected for, and closes an author or an entry.
pub open spec fn on_end(s: AtomView, name: Seq<char>) -> AtomView {
    if name == "title"@ && s.field == AtomField::Title {
        AtomView { title: trim_spec(s.text), field: AtomField::Idle, ..s }
    } else if name == "summary"@ && s.field == AtomField::Summary {
        AtomView { summary: trim_spec(s.text), field: AtomField::Idle, ..s }
    } else if name == "name"@ && s.field == AtomField::Author {
        AtomView { authors: s.authors.push(trim_spec(s.text)), field: AtomField::Idle, ..s }
    } else if name == "author"@ {
        AtomView { in_author: false, ..s }
    } else if name == "entry"@ {
        AtomView { in_entry: false, in_author: false, field: AtomField::Idle, ..s }
    } else {
        s
    }
}

/// One event applied to the state, or the message of the error it raises.
pub open spec fn step_spec(s: AtomView, e: AtomEventView) -> Result<AtomView, Seq<char>> {
    match e {
        AtomEventView::Start(n) => Ok(on_start(s, n)),
        AtomEventView::Empty(n, attrs) => Ok(on_empty(s, n, attrs)),
        AtomEventView::Text(t) => if s.field == AtomField::Idle {
            Ok(s)
        } else {
            match t {
                Ok(x) => Ok(AtomView { text: s.text + x, ..s }),
                Err(m) => Err("invalid arXiv XML text: "@ + m),
            }
        },
        AtomEventView::End(n) => Ok(on_end(s, n)),
        AtomEventView::Eof => Ok(s),
        AtomEventView::Other => Ok(s),
        AtomEventView::Error(m) => Err("invalid arXiv XML: "@ + m),
    }
}

fn attribute(attrs: &Vec<(String, String)>, key: &str) -> (r: Option<String>)
    ensures
        match r {
            Some(v) => attribute_spec(pair_views(attrs@), key@) == Some(v@),
            None => attribute_spec(pair_views(attrs@), key@).is_none(),
        },
{
    let ghost pv = pair_views(attrs@);
    let mut i: usize = 0;
    assert(pv.skip(0) == pv);
    while i < attrs.len()
        invariant
            i <= attrs.len(),
            pv == pair_views(attrs@),
            attribute_spec(pv, key@) == attribute_spec(pv.skip(i as int), key@),
        decreases attrs.len() - i,
    {
        assert(pv.skip(i as int)[0] == (attrs@[i as int].0@, attrs@[i as int].1@));
        assert(pv.skip(i as int).drop_first() == pv.skip(i + 1));
        if str_eq(attrs[i].0.as_str(), key) {
            return Some(attrs[i].1.clone());
        }
        i += 1;
    }
    None
}

fn attribute_string(attrs: &Vec<(String, String)>, key: &str) -> (r: String)
    ensures
        r@ == attribute_or_empty(pair_views(attrs@), key@),
{
    match attribute(attrs, key) {
        Some(v) => v,
        None => String::new(),
    }
}

impl AtomState {
    /// The state before the first event.
    pub fn new() -> (s: AtomState)
        ensures
            s@ == initial_view(),
    {
        let s = AtomState {
            in_entry: false,
            in_author: false,
            field: AtomField::Idle,
            text: String::new(),
            title: String::new(),
            summary: String::new(),
            authors: Vec::new(),
            categories: Vec::new(),
            abstract_url: String::new(),
            pdf_url: String::new(),
        };
        assert(s@.authors =~= Seq::<Seq<char>>::empty());
        assert(s@.categories =~= Seq::<Seq<char>>::empty());
        s
    }

    fn on_start(&mut self, name: &str)
        ensures
            final(self)@ == on_start(old(self)@, name@),
    {
        if str_eq(name, "entry") {
            self.in_entry = true;
        } else if str_eq(name, "author") && self.in_entry {
            self.in_author = true;
        } else if str_eq(name, "title") && self.in_entry {
            self.field = AtomField::Title;
            self.text = String::new();
        } else if str_eq(name, "summary") && self.in_entry {
            self.field = AtomField::Summary;
            self.text = String::new();
        } else if str_eq(name, "name") && self.in_author {
            self.field = AtomField::Author;
            self.text = String::new();
        }
    }

    fn on_empty(&mut self, name: &str, attrs: &Vec<(String, String)>)
        ensures
            final(self)@ == on_empty(old(self)@, name@, pair_views(attrs@)),
    {
        if !self.in_entry {
            return;
        }
        if str_eq(name, "category") {
            match attribute(attrs, "term") {
                Some(t) => {
                    let ghost before = self.categories@;
                    self.categories.push(t);
                    assert(views(self.categories@) =~= views(before).push(t@));
                }
                None => {}
            }
        } else if str_eq(name, "link") {
            let href = attribute_string(attrs, "href");
            let content_type = attribute_string(attrs, "type");
            let relation = attribute_string(attrs, "rel");
            if str_eq(content_type.as_str(), "application/pdf") {
                self.pdf_url = href;
            } else if str_eq(relation.as_str(), "alternate") {
                self.abstract_url = href;
            }
        }
    }

    fn on_end(&mut self, name: &str)
        ensures
            final(self)@ == on_end(old(self)@, name@),
    {
        if str_eq(name, "title") && self.field == AtomField::Title {
            self.title = trim_str(self.text.as_str());
            self.field = AtomField::Idle;
        } else if str_eq(name, "summary") && self.field == AtomField::Summary {
            self.summary = trim_str(self.text.as_str());
            self.field = AtomField::Idle;
        } else if str_eq(name, "name") && self.field == AtomField::Author {
            let a = trim_str(self.text.as_str());
            let ghost before = self.authors@;
            self.authors.push(a);
            assert(views(self.authors@) =~= views(before).push(a@));
            self.field = AtomField::Idle;
        } else if str_eq(name, "author") {
            self.in_author = false;
        } else if str_eq(name, "entry") {
            self.in_entry = false;
            self.in_author = false;
            self.field = AtomField::Idle;
        }
    }

    /// Applies one event of the feed.
    pub fn step(&mut self, event: &AtomEvent) -> (r: Result<(), HybridSearchError>)
        ensures
            match step_spec(old(self)@, event@) {
                Ok(v) => r is Ok && final(self)@ == v,
                Err(m) => r matches Err(HybridSearchError::Parse(e)) && e@ == m,
            },
    {
        match event {
            AtomEvent::Start(n) => {
                self.on_start(n.as_str());
                Ok(())
            }
            AtomEvent::Empty(n, attrs) => {
                self.on_empty(n.as_str(), attrs);
                Ok(())
            }
            AtomEvent::Text(t) => {
                if self.field == AtomField::Idle {
                    return Ok(());
                }
                match t {
                    Ok(x) => {
                        push_str(&mut self.text, x.as_str());
                        Ok(())
                    }
                    Err(m) => {
                        let mut e = "invalid arXiv XML text: ".to_owned();
                        push_str(&mut e, m.as_str());
                        Err(HybridSearchError::Parse(e))
                    }
                }
            }
            AtomEvent::End(n) => {
                self.on_end(n.as_str());
                Ok(())
            }
            AtomEvent::Eof => Ok(()),
            AtomEvent::Other => Ok(()),
            AtomEvent::Error(m) => {
                let mut e = "invalid arXiv XML: ".to_owned();
                push_str(&mut e, m.as_str());
                Err(HybridSearchError::Parse(e))
            }
        }
    }
}

// ---------------------------------------------------------------------------
// Parsing a feed
// ---------------------------------------------------------------------------

/// A paper as the page shows it.
pub struct ArxivPaper {
    pub title: String,
    pub authors: Vec<String>,
    pub categories: Vec<String>,
    pub summary: String,
    pub abstract_url: String,
    pub pdf_url: String,
}

/// The events applied in order, up to the end of the document or the first error.
pub open spec fn run_spec(s: AtomView, events: Seq<AtomEventView>) -> Result<AtomView, Seq<char>>
    decreases events.len(),
{
    if events.len() == 0 {
        Ok(s)
    } else if events[0] is Eof {
        Ok(s)
    } else {
        match step_spec(s, events[0]) {
            Ok(t) => run_spec(t, events.drop_first()),
            Err(m) => Err(m),
        }
    }
}

/// The paper that a sequence of events describes: a feed without a title or an abstract
/// is refused.
pub open spec fn atom_outcome(events: Seq<AtomEventView>) -> Result<AtomView, Seq<char>> {
    match run_spec(initial_view(), events) {
        Ok(v) => if v.title.len() == 0 || v.summary.len() == 0 {
            Err("arXiv response is missing a title or abstract"@)
        } else {
            Ok(v)
        },
        Err(m) => Err(m),
    }
}

/// `r` is the outcome `o`: the paper with the fields of the final state, or a parse error
/// with its message.
pub open spec fn paper_matches(r: Result<ArxivPaper, HybridSearchError>, o: Result<AtomView, Seq<char>>) -> bool {
    match o {
        Ok(v) => r matches Ok(p) && {
            &&& p.title@ == v.title
            &&& views(p.authors@) == v.authors
            &&& views(p.categories@) == v.categories
            &&& p.summary@ == v.summary
            &&& p.abstract_url@ == v.abstract_url
            &&& p.pdf_url@ == v.pdf_url
        },
        Err(m) => r matches Err(HybridSearchError::Parse(e)) && e@ == m,
    }
}

fn is_end(e: &AtomEvent) -> (r: bool)
    ensures
        r == (e@ is Eof),
{
    matches!(e, AtomEvent::Eof)
}

/// Reads the paper out of the events of an Atom feed.
pub fn parse_atom_events(events: &Vec<AtomEvent>) -> (r: Result<ArxivPaper, HybridSearchError>)
    ensures
        paper_matches(r, atom_outcome(event_views(events@))),
{
    let ghost ev = event_views(events@);
    let mut state = AtomState::new();
    let mut i: usize = 0;
    assert(ev.skip(0) == ev);
    while i < events.len() && !is_end(&events[i])
        invariant
            i <= events.len(),
            ev == event_views(events@),
            run_spec(initial_view(), ev) == run_spec(state@, ev.skip(i as int)),
        decreases events.len() - i,
    {
        assert(ev.skip(i as int)[0] == events@[i as int]@);
        assert(ev.skip(i as int).drop_first() == ev.skip(i + 1));
        match state.step(&events[i]) {
            Ok(()) => {}
            Err(e) => return Err(e),
        }
        i += 1;
    }
    proof {
        if i < events.len() {
            assert(ev.skip(i as int)[0] == events@[i as int]@);
        }
    }
    assert(run_spec(initial_view(), ev) == Ok::<AtomView, Seq<char>>(state@));
    if chars_of(state.title.as_str()).len() == 0 || chars_of(state.summary.as_str()).len() == 0 {
        return Err(HybridSearchError::Parse("arXiv response is missing a title or abstract".to_owned()));
    }
    Ok(ArxivPaper {
        title: state.title,
        authors: state.authors,
        categories: state.categories,
        summary: state.summary,
        abstract_url: state.abstract_url,
        pdf_url: state.pdf_url,
    })
}

/// Parses the Atom feed of the arXiv API: the title, authors, categories, abstract and
/// links of its entry.
pub fn parse_atom(xml: &str) -> (r: Result<ArxivPaper, HybridSearchError>)
    ensures
        paper_matches(r, atom_outcome(feed_events(xml@))),
{
    let events = read_feed(xml);
    parse_atom_events(&events)
}

// ---------------------------------------------------------------------------
// URLs and the page
// ---------------------------------------------------------------------------

/// Whether a URL is an arXiv paper: `/abs/{id}` or `/pdf/{id}` on `arxiv.org`.
pub open spec fn matches_spec(host: Option<Seq<char>>, path: Seq<char>) -> bool {
    &&& host == Some("arxiv.org"@)
    &&& (starts_with_spec(path, "/abs/"@) || starts_with_spec(path, "/pdf/"@))
    &&& path.len() > 5
}

/// Whether a URL is an arXiv paper.
pub fn matches(url: &UrlParts) -> (r: bool)
    ensures
        r == matches_spec(crate::model::opt_view(url.host), url.path@),
{
    let on_arxiv = match &url.host {
        Some(h) => str_eq(h.as_str(), "arxiv.org"),
        None => false,
    };
    proof {
        reveal_strlit("arxiv.org");
        reveal_strlit("/abs/");
        reveal_strlit("/pdf/");
    }
    if !on_arxiv {
        return false;
    }
    let p = chars_of(url.path.as_str());
    (starts_with_chars(&p, &chars_of("/abs/")) || starts_with_chars(&p, &chars_of("/pdf/"))) && p.len() > 5
}

/// The paper ID of a path: what follows `/abs/` or `/pdf/`, when something does, without a
/// trailing `.pdf`.
pub open spec fn extract_id_spec(path: Seq<char>) -> Option<Seq<char>> {
    if (starts_with_spec(path, "/abs/"@) || starts_with_spec(path, "/pdf/"@)) && path.len() > 5 {
        let rest = path.skip(5);
        Some(if ends_with_spec(rest, ".pdf"@) { rest.subrange(0, rest.len() - 4) } else { rest })
    } else {
        None
    }
}

/// The paper ID of a URL path.
pub fn extract_id(path: &str) -> (r: Option<String>)
    ensures
        match r {
            Some(id) => extract_id_spec(path@) == Some(id@),
            None => extract_id_spec(path@).is_none(),
        },
{
    let p = chars_of(path);
    proof {
        reveal_strlit("/abs/");
        reveal_strlit("/pdf/");
        reveal_strlit(".pdf");
    }
    if !((starts_with_chars(&p, &chars_of("/abs/")) || starts_with_chars(&p, &chars_of("/pdf/"))) && p.len() > 5) {
        return None;
    }
    let rest = crate::text::slice_chars(&p, 5, p.len());
    assert(rest@ == path@.skip(5));
    if ends_with_chars(&rest, &chars_of(".pdf")) {
        Some(string_from_range(&rest, 0, rest.len() - 4))
    } else {
        Some(string_from_range(&rest, 0, rest.len()))
    }
}

/// The API request for a paper, or the error that refuses it.
pub open spec fn request_spec(path: Seq<char>) -> Result<Seq<char>, Seq<char>> {
    match extract_id_spec(path) {
        None => Err("arXiv paper ID is missing"@),
        Some(id) => url_with_query_spec("https://export.arxiv.org/api/query"@, seq![("id_list"@, id)]),
    }
}

/// The API URL for the paper that a URL path names.
pub fn request_url(path: &str) -> (r: Result<String, HybridSearchError>)
    ensures
        match request_spec(path@) {
            Ok(u) => r matches Ok(s) && s@ == u,
            Err(m) => r matches Err(HybridSearchError::Parse(e)) && e@ == m,
        },
{
    let id = match extract_id(path) {
        Some(id) => id,
        None => return Err(HybridSearchError::Parse("arXiv paper ID is missing".to_owned())),
    };
    let mut pairs: Vec<(String, String)> = Vec::new();
    pairs.push(("id_list".to_owned(), id));
    assert(pair_views(pairs@) =~= seq![("id_list"@, extract_id_spec(path@).unwrap())]);
    match url_with_query("https://export.arxiv.org/api/query", &pairs) {
        Ok(u) => Ok(u),
        Err(e) => Err(HybridSearchError::Parse(e)),
    }
}

/// The page of a paper.
pub open spec fn render_spec(v: AtomView) -> Seq<char> {
    "# "@ + v.title + "\n\n**Authors:** "@ + join_spec(v.authors, ", "@) + "\n\n**Categories:** "@
        + join_spec(v.categories, ", "@) + "\n\n**Links:** [Abstract]("@ + v.abstract_url + ") | [PDF]("@
        + v.pdf_url + ")\n\n## Abstract\n\n"@ + v.summary + "\n"@
}

pub open spec fn paper_view(p: ArxivPaper) -> AtomView {
    AtomView {
        in_entry: false,
        in_author: false,
        field: AtomField::Idle,
        text: seq![],
        title: p.title@,
        summary: p.summary@,
        authors: views(p.authors@),
        categories: views(p.categories@),
        abstract_url: p.abstract_url@,
        pdf_url: p.pdf_url@,
    }
}

/// Renders a paper as Markdown.
pub fn render(paper: &ArxivPaper) -> (r: String)
    ensures
        r@ == render_spec(paper_view(*paper)),
{
    let mut out = "# ".to_owned();
    push_str(&mut out, paper.title.as_str());
    push_str(&mut out, "\n\n**Authors:** ");
    let authors = join_strings(&paper.authors, ", ");
    push_str(&mut out, authors.as_str());
    push_str(&mut out, "\n\n**Categories:** ");
    let categories = join_strings(&paper.categories, ", ");
    push_str(&mut out, categories.as_str());
    push_str(&mut out, "\n\n**Links:** [Abstract](");
    push_str(&mut out, paper.abstract_url.as_str());
    push_str(&mut out, ") | [PDF](");
    push_str(&mut out, paper.pdf_url.as_str());
    push_str(&mut out, ")\n\n## Abstract\n\n");
    push_str(&mut out, paper.summary.as_str());
    push_str(&mut out, "\n");
    out
}

/// The page of a paper, from the text of the API response or the request's own error.
pub fn page_from(response: Result<String, HybridSearchError>) -> (r: Result<SpecialistPage, HybridSearchError>)
    ensures
        match response {
            Err(e) => r == Err::<SpecialistPage, HybridSearchError>(e),
            Ok(x) => match atom_outcome(feed_events(x@)) {
                Ok(v) => r matches Ok(p) && p.content@ == render_spec(v) && p.source_type@ == "arxiv"@,
                Err(m) => r matches Err(HybridSearchError::Parse(e)) && e@ == m,
            },
        },
{
    let xml = match response {
        Ok(x) => x,
        Err(e) => return Err(e),
    };
    let paper = match parse_atom(xml.as_str()) {
        Ok(p) => p,
        Err(e) => return Err(e),
    };
    let content = render(&paper);
    Ok(SpecialistPage { content, source_type: "arxiv".to_owned() })
}

} // verus!
