//! The markdown tokenizer and the HTML writer, as the pipeline sees them.
//!
//! A document is a sequence of events. The pipeline carries each event
//! through as it came and looks only at its [`Shape`]: whether it opens or
//! closes something, and which link, image, heading or code block that is.

use vstd::prelude::*;
use crate::text::opt_view;
use pulldown_cmark::{CodeBlockKind, Event, LinkType, Options, Parser, Tag};

verus! {

#[verifier::external_type_specification]
#[verifier::external_body]
pub struct ExEvent<'a>(Event<'a>);

/// Whether an event opens or closes an element, or is a piece of text.
pub enum Outline {
    Start,
    End,
    Text(String),
    Other,
}

/// The element that an event opens or closes.
pub enum Mark {
    Link { url: String, title: String },
    Image { url: String },
    Heading { level: u8, id: Option<String> },
    FencedCode { lang: String },
    Other,
}

/// What the pipeline reads of an event.
pub enum Shape {
    LinkOpen { url: Seq<char>, title: Seq<char> },
    LinkClose,
    ImageOpen { url: Seq<char> },
    HeadingOpen { level: u8, id: Option<Seq<char>> },
    HeadingClose { level: u8 },
    FencedCode { lang: Seq<char> },
    Text(Seq<char>),
    Other,
}

/// Whether `e` is a start, an end, a text, or something else.
pub uninterp spec fn event_outline(e: Event<'static>) -> Outline;

/// The element of the tag in `e`, where `e` is a start or an end.
pub uninterp spec fn event_mark(e: Event<'static>) -> Mark;

/// The events that the tokenizer gives for a text, with the extensions to
/// markdown that the bits of `extensions` switch on.
pub uninterp spec fn tokenized(raw: Seq<char>, extensions: u32) -> Seq<Event<'static>>;

/// The bit that switches footnotes on.
pub const FOOTNOTES: u32 = 4;

/// The bit that switches struck-through text on.
pub const STRIKETHROUGH: u32 = 8;

/// The events of a document: those of its text, footnotes and struck-through
/// text being read as such.
pub open spec fn markdown_events(raw: Seq<char>) -> Seq<Event<'static>> {
    tokenized(raw, (FOOTNOTES + STRIKETHROUGH) as u32)
}

/// The HTML that the writer gives for a sequence of events.
pub uninterp spec fn events_html(events: Seq<Event<'static>>) -> Seq<char>;

/// The event that opens an inline link to `url` with the title `title`.
pub uninterp spec fn link_start(url: Seq<char>, title: Seq<char>) -> Event<'static>;

/// The event that opens the image of `e`, led to `url` instead.
pub uninterp spec fn image_start(e: Event<'static>, url: Seq<char>) -> Event<'static>;

/// The event that stands for a piece of finished HTML.
pub uninterp spec fn html_piece(html: Seq<char>) -> Event<'static>;

/// What the pipeline reads of an event.
pub open spec fn shape(e: Event<'static>) -> Shape {
    match event_outline(e) {
        Outline::Start => match event_mark(e) {
            Mark::Link { url, title } => Shape::LinkOpen { url: url@, title: title@ },
            Mark::Image { url } => Shape::ImageOpen { url: url@ },
            Mark::Heading { level, id } => Shape::HeadingOpen { level, id: opt_view(id) },
            Mark::FencedCode { lang } => Shape::FencedCode { lang: lang@ },
            Mark::Other => Shape::Other,
        },
        Outline::End => match event_mark(e) {
            Mark::Link { url, title } => Shape::LinkClose,
            Mark::Heading { level, id } => Shape::HeadingClose { level },
            _ => Shape::Other,
        },
        Outline::Text(t) => Shape::Text(t@),
        Outline::Other => Shape::Other,
    }
}

/// `Parser::new_ext` of pulldown_cmark, run to its end on `raw`, with the
/// options that `Options::from_bits_truncate` makes of `extensions`: the
/// events of the text, a function of the text and the options.
#[verifier::external_body]
pub(crate) fn parse_events<'a>(raw: &'a str, extensions: u32) -> (r: Vec<Event<'a>>)
    ensures
        r@ == tokenized(raw@, extensions),
{
    Parser::new_ext(raw, Options::from_bits_truncate(extensions)).collect()
}

/// The events of a document.
pub fn tokenize<'a>(raw: &'a str) -> (r: Vec<Event<'a>>)
    ensures
        r@ == markdown_events(raw@),
{
    parse_events(raw, FOOTNOTES + STRIKETHROUGH)
}

/// `html::push_html` of pulldown_cmark on an empty string: the HTML of the
/// events, a function of the events.
#[verifier::external_body]
pub(crate) fn write_html<'a>(events: &Vec<Event<'a>>) -> (r: String)
    ensures
        r@ == events_html(events@),
{
    let mut out = String::new();
    pulldown_cmark::html::push_html(&mut out, events.iter().cloned());
    out
}

/// Tells the variants of pulldown_cmark's `Event` apart, and copies the text
/// of a text event.
#[verifier::external_body]
pub(crate) fn outline_of<'a>(e: &Event<'a>) -> (r: Outline)
    ensures
        r == event_outline(*e),
{
    match e {
        Event::Start(_) => Outline::Start,
        Event::End(_) => Outline::End,
        Event::Text(t) => Outline::Text(t.to_string()),
        _ => Outline::Other,
    }
}

/// Tells the variants of pulldown_cmark's `Tag` apart in a start or an end
/// event, and copies what the tag holds: a link's target and title, an image's
/// target, a heading's level and identifier, a fenced code block's language.
#[verifier::external_body]
pub(crate) fn mark_of<'a>(e: &Event<'a>) -> (r: Mark)
    ensures
        r == event_mark(*e),
{
    match e {
        Event::Start(tag) | Event::End(tag) => match tag {
            Tag::Link(_, u, t) => Mark::Link { url: u.to_string(), title: t.to_string() },
            Tag::Image(_, u, _) => Mark::Image { url: u.to_string() },
            Tag::Heading(l, id, _) => Mark::Heading { level: *l as u8, id: id.map(String::from) },
            Tag::CodeBlock(CodeBlockKind::Fenced(l)) => Mark::FencedCode { lang: l.to_string() },
            _ => Mark::Other,
        },
        _ => Mark::Other,
    }
}

/// Builds pulldown_cmark's start event of an inline link: an event that
/// opens a link with the target and the title that were given.
#[verifier::external_body]
pub(crate) fn make_link<'a>(url: String, title: String) -> (r: Event<'a>)
    ensures
        r == link_start(url@, title@),
        shape(r) == (Shape::LinkOpen { url: url@, title: title@ }),
{
    Event::Start(Tag::Link(LinkType::Inline, url.into(), title.into()))
}

/// Builds pulldown_cmark's start event of an image from the one in `e`, with
/// another target: where `e` opens an image, an event that opens an image
/// with the target that was given. An event that opens no image comes back
/// as a copy, which reads as `e` does.
#[verifier::external_body]
pub(crate) fn make_image<'a>(e: &Event<'a>, url: String) -> (r: Event<'a>)
    ensures
        r == image_start(*e, url@),
        shape(*e) is ImageOpen ==> shape(r) == (Shape::ImageOpen { url: url@ }),
        !(shape(*e) is ImageOpen) ==> shape(r) == shape(*e),
{
    match e {
        Event::Start(Tag::Image(kind, _, title)) => Event::Start(
            Tag::Image(*kind, url.into(), title.clone()),
        ),
        other => other.clone(),
    }
}

/// Builds pulldown_cmark's event of raw HTML: an event that opens and
/// closes nothing and is no text.
#[verifier::external_body]
pub(crate) fn make_html<'a>(html: String) -> (r: Event<'a>)
    ensures
        r == html_piece(html@),
        shape(r) == Shape::Other,
{
    Event::Html(html.into())
}

/// What the pipeline reads of an event, as a value to work with.
pub enum Seen {
    LinkOpen { url: String, title: String },
    LinkClose,
    ImageOpen { url: String },
    HeadingOpen { level: u8, id: Option<String> },
    HeadingClose { level: u8 },
    FencedCode { lang: String },
    Text(String),
    Other,
}

impl View for Seen {
    type V = Shape;

    open spec fn view(&self) -> Shape {
        match *self {
            Seen::LinkOpen { url, title } => Shape::LinkOpen { url: url@, title: title@ },
            Seen::LinkClose => Shape::LinkClose,
            Seen::ImageOpen { url } => Shape::ImageOpen { url: url@ },
            Seen::HeadingOpen { level, id } => Shape::HeadingOpen { level, id: opt_view(id) },
            Seen::HeadingClose { level } => Shape::HeadingClose { level },
            Seen::FencedCode { lang } => Shape::FencedCode { lang: lang@ },
            Seen::Text(t) => Shape::Text(t@),
            Seen::Other => Shape::Other,
        }
    }
}

/// What the pipeline reads of an event.
pub fn look<'a>(e: &Event<'a>) -> (r: Seen)
    ensures
        r@ == shape(*e),
{
    match outline_of(e) {
        Outline::Start => match mark_of(e) {
            Mark::Link { url, title } => Seen::LinkOpen { url, title },
            Mark::Image { url } => Seen::ImageOpen { url },
            Mark::Heading { level, id } => Seen::HeadingOpen { level, id },
            Mark::FencedCode { lang } => Seen::FencedCode { lang },
            Mark::Other => Seen::Other,
        },
        Outline::End => match mark_of(e) {
            Mark::Link { url, title } => Seen::LinkClose,
            Mark::Heading { level, id } => Seen::HeadingClose { level },
            _ => Seen::Other,
        },
        Outline::Text(t) => Seen::Text(t),
        Outline::Other => Seen::Other,
    }
}

/// Events waiting to be read, the first of them first.
pub struct EventQueue<'a> {
    /// The events, the next one to be read last.
    items: Vec<Event<'a>>,
}

impl<'a> EventQueue<'a> {
    /// The events that are still to be read, in their order.
    pub closed spec fn rest(&self) -> Seq<Event<'static>> {
        self.items@.reverse()
    }

    /// A queue of the given events.
    pub fn new(events: Vec<Event<'a>>) -> (r: Self)
        ensures
            r.rest() == events@,
    {
        let ghost all = events@;
        let items = reversed(events);
        assert(all.reverse().reverse() =~= all);
        EventQueue { items }
    }

    /// How many events are still to be read.
    pub fn len(&self) -> (r: usize)
        ensures
            r == self.rest().len(),
    {
        self.items.len()
    }

    /// Takes the next event off the queue, if there is one.
    pub fn pop_front(&mut self) -> (r: Option<Event<'a>>)
        ensures
            old(self).rest().len() == 0 ==> r is None && final(self).rest() == old(self).rest(),
            old(self).rest().len() > 0 ==> r == Some(old(self).rest()[0]) && final(self).rest()
                == old(self).rest().skip(1),
    {
        let r = self.items.pop();
        proof {
            if old(self).items@.len() > 0 {
                assert(old(self).items@.drop_last().reverse() =~= old(self).items@.reverse().skip(
                    1,
                ));
            }
        }
        r
    }

    /// Forgets the events that are still to be read.
    pub fn clear(&mut self)
        ensures
            final(self).rest().len() == 0,
    {
        self.items.clear();
    }
}

/// The items of `v` from the last to the first.
pub fn reversed<T>(v: Vec<T>) -> (r: Vec<T>)
    ensures
        r@ == v@.reverse(),
{
    let mut v = v;
    let ghost all = v@;
    let mut out: Vec<T> = Vec::new();
    while v.len() > 0
        invariant
            v@ == all.take(v@.len() as int),
            out@.len() + v@.len() == all.len(),
            forall|j: int| 0 <= j < out@.len() ==> out@[j] == all[all.len() - 1 - j],
        decreases v.len(),
    {
        let e = v.pop().unwrap();
        out.push(e);
    }
    assert(out@ =~= all.reverse());
    out
}

} // verus!
