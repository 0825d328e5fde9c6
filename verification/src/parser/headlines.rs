//! Headings become finished HTML with an identifier to link to.

use vstd::prelude::*;
use crate::link::{link_views, EskerLinkType, Link, LinkKind, LinkView};
use crate::markdown::{
    events_html, html_piece, look, make_html, shape, write_html, EventQueue, Seen, Shape,
};
use crate::slug::{slug_of, slugify};
use crate::text::{chars_of, decimal, decimal_of, opt_view, push_all, string_of};
use pulldown_cmark::Event;

verus! {

/// How many events stand before the first one that closes a heading; the
/// number of all events where none does.
pub open spec fn close_at(events: Seq<Event<'static>>) -> int
    decreases events.len(),
{
    if events.len() == 0 {
        0
    } else if shape(events[0]) is HeadingClose {
        0
    } else {
        1 + close_at(events.skip(1))
    }
}

/// The text of a heading: the texts among its events, one behind the other
/// with nothing between them.
pub open spec fn heading_text(inner: Seq<Event<'static>>) -> Seq<char>
    decreases inner.len(),
{
    if inner.len() == 0 {
        Seq::empty()
    } else {
        heading_text(inner.drop_last()) + (match shape(inner.last()) {
            Shape::Text(t) => t,
            _ => Seq::empty(),
        })
    }
}

/// The identifier of a heading: the one it was given, else the slug of its
/// text.
pub open spec fn heading_id(id: Option<Seq<char>>, inner: Seq<Event<'static>>) -> Seq<char> {
    match id {
        Some(given) => given,
        None => slug_of(heading_text(inner)),
    }
}

/// The tag that opens a heading.
pub open spec fn heading_open(level: u8, id: Seq<char>) -> Seq<char> {
    "<h"@ + decimal(level as nat) + " id=\""@ + id + "\">"@
}

/// The tag that closes a heading.
pub open spec fn heading_close(level: u8) -> Seq<char> {
    "</h"@ + decimal(level as nat) + ">"@
}

/// The HTML of a heading: its opening tag with the identifier, the HTML of
/// what stands in it, its closing tag.
pub open spec fn heading_html(level: u8, id: Option<Seq<char>>, inner: Seq<Event<'static>>) -> Seq<
    char,
> {
    heading_open(level, heading_id(id, inner)) + events_html(inner) + heading_close(level)
}

/// The entry of a heading in the table of contents of the document at `url`:
/// it leads to the identifier of the heading in the page of the document, is
/// titled with the text of the heading, and carries its level.
pub open spec fn toc_entry(
    url: Seq<char>,
    level: u8,
    id: Option<Seq<char>>,
    inner: Seq<Event<'static>>,
) -> LinkView {
    LinkView {
        url: url + seq!['#'] + heading_id(id, inner),
        is_internal: false,
        title: heading_text(inner),
        originating_file_title: None,
        originating_file_url: None,
        link_type: LinkKind::Toc { heading_level: level },
    }
}

/// What the next step adds to the table of contents of the document at
/// `url`: the entry of the heading that comes out, where one does.
pub open spec fn heading_entry(url: Seq<char>, rest: Seq<Event<'static>>) -> Seq<LinkView> {
    if rest.len() == 0 {
        Seq::empty()
    } else {
        match shape(rest[0]) {
            Shape::HeadingOpen { level, id } => {
                let body = rest.skip(1);
                let k = close_at(body);
                if k >= body.len() {
                    Seq::empty()
                } else {
                    seq![toc_entry(url, level, id, body.take(k))]
                }
            },
            _ => Seq::empty(),
        }
    }
}

/// What comes out next, and what is left to read. A heading comes out as one
/// piece of HTML and takes everything up to the event that closes it; one
/// that is never closed takes all that is left and gives nothing. Any other
/// event comes out as it is.
pub open spec fn heading_step(rest: Seq<Event<'static>>) -> (Option<Event<'static>>, Seq<
    Event<'static>,
>) {
    if rest.len() == 0 {
        (None, rest)
    } else {
        match shape(rest[0]) {
            Shape::HeadingOpen { level, id } => {
                let body = rest.skip(1);
                let k = close_at(body);
                if k >= body.len() {
                    (None, Seq::empty())
                } else {
                    (Some(html_piece(heading_html(level, id, body.take(k)))), body.skip(k + 1))
                }
            },
            _ => (Some(rest[0]), rest.skip(1)),
        }
    }
}

/// Everything that comes out of `rest`, step by step.
pub open spec fn headings_all(rest: Seq<Event<'static>>) -> Seq<Event<'static>>
    decreases rest.len(),
{
    let (out, left) = heading_step(rest);
    match out {
        Some(e) => if left.len() < rest.len() {
            seq![e] + headings_all(left)
        } else {
            seq![e]
        },
        None => Seq::empty(),
    }
}

/// The table of contents of the document at `url`: the entries of the
/// headings that come out of `rest`, in their order.
pub open spec fn headings_toc(url: Seq<char>, rest: Seq<Event<'static>>) -> Seq<LinkView>
    decreases rest.len(),
{
    let (out, left) = heading_step(rest);
    match out {
        Some(e) => if left.len() < rest.len() {
            heading_entry(url, rest) + headings_toc(url, left)
        } else {
            heading_entry(url, rest)
        },
        None => Seq::empty(),
    }
}

/// `close_at` stays within the events.
pub proof fn lemma_close_at(events: Seq<Event<'static>>)
    ensures
        0 <= close_at(events) <= events.len(),
        close_at(events) < events.len() ==> shape(events[close_at(events)]) is HeadingClose,
    decreases events.len(),
{
    if events.len() > 0 && !(shape(events[0]) is HeadingClose) {
        lemma_close_at(events.skip(1));
    }
}

/// Where the first `n` events close no heading, `close_at` is `n` more than
/// it is behind them.
pub proof fn lemma_close_after(events: Seq<Event<'static>>, n: int)
    requires
        0 <= n <= events.len(),
        forall|j: int| 0 <= j < n ==> !(shape(events[j]) is HeadingClose),
    ensures
        close_at(events) == n + close_at(events.skip(n)),
    decreases n,
{
    if n > 0 {
        let tail = events.skip(1);
        assert forall|j: int| 0 <= j < n - 1 implies !(shape(tail[j]) is HeadingClose) by {
            assert(tail[j] == events[j + 1]);
        }
        lemma_close_after(tail, n - 1);
        assert(tail.skip(n - 1) == events.skip(n));
    } else {
        assert(events.skip(0) == events);
    }
}

/// A step that gives something leaves less to read.
pub proof fn lemma_heading_step_shrinks(rest: Seq<Event<'static>>)
    ensures
        heading_step(rest).0 is Some ==> heading_step(rest).1.len() < rest.len(),
{
    if rest.len() > 0 {
        lemma_close_at(rest.skip(1));
    }
}

/// The stage of the pipeline that turns headings into finished HTML and
/// enters each of them in the table of contents of its document.
pub struct ParseHeadlines<'a> {
    parent: EventQueue<'a>,
    /// The address of the document.
    url: String,
    /// The entries of the headings that came out.
    toc: Vec<Link>,
}

impl<'a> ParseHeadlines<'a> {
    /// The events that are still to be read.
    pub closed spec fn rest(&self) -> Seq<Event<'static>> {
        self.parent.rest()
    }

    /// The address of the document that is read.
    pub closed spec fn url(&self) -> Seq<char> {
        self.url@
    }

    /// The table of contents as far as it was made.
    pub closed spec fn toc(&self) -> Seq<LinkView> {
        link_views(self.toc@)
    }

    /// The stage for the events `parent` of the document at `url`.
    pub fn new(parent: Vec<Event<'a>>, url: &str) -> (r: Self)
        ensures
            r.rest() == parent@,
            r.url() == url@,
            r.toc().len() == 0,
    {
        ParseHeadlines { parent: EventQueue::new(parent), url: url.to_owned(), toc: Vec::new() }
    }

    /// The next event of the stage, or nothing when it has given all. A
    /// heading that comes out is entered in the table of contents under the
    /// identifier that its HTML carries.
    #[verifier::loop_isolation(false)]
    pub fn next(&mut self) -> (r: Option<Event<'a>>)
        ensures
            r == heading_step(old(self).rest()).0,
            old(self).rest().len() > 0 && shape(old(self).rest()[0]) is HeadingOpen ==> (r matches Some(
                e,
            ) ==> shape(e) == Shape::Other),
            final(self).rest() == heading_step(old(self).rest()).1,
            final(self).url() == old(self).url(),
            final(self).toc() == old(self).toc() + heading_entry(old(self).url(), old(self).rest()),
    {
        proof {
            assert(self.toc() + Seq::<LinkView>::empty() == self.toc());
        }
        let first = match self.parent.pop_front() {
            Some(e) => e,
            None => {
                return None;
            },
        };
        let (level, id) = match look(&first) {
            Seen::HeadingOpen { level, id } => (level, id),
            _ => {
                return Some(first);
            },
        };
        let ghost body = self.parent.rest();
        let mut events: Vec<Event<'a>> = Vec::new();
        let mut generated: Vec<char> = Vec::new();
        proof {
            assert(body.skip(0) == body);
            assert(body.take(0) == Seq::<Event<'static>>::empty());
        }
        loop
            invariant
                events@.len() <= body.len(),
                events@ == body.take(events@.len() as int),
                self.parent.rest() == body.skip(events@.len() as int),
                forall|j: int| 0 <= j < events@.len() ==> !(shape(body[j]) is HeadingClose),
                generated@ == heading_text(events@),
                self.url == old(self).url,
                self.toc == old(self).toc,
            decreases body.len() - events@.len(),
        {
            let ghost n = events@.len() as int;
            let e = match self.parent.pop_front() {
                Some(e) => e,
                None => {
                    proof {
                        lemma_close_after(body, n);
                        assert(body.skip(n).len() == 0);
                    }
                    self.parent.clear();
                    assert(self.parent.rest() =~= Seq::<Event<'static>>::empty());
                    return None;
                },
            };
            proof {
                assert(e == body[n]);
                assert(body.skip(n).skip(1) == body.skip(n + 1));
            }
            match look(&e) {
                Seen::HeadingClose { level: _ } => {
                    proof {
                        lemma_close_after(body, n);
                        assert(body.skip(n)[0] == body[n]);
                        assert(close_at(body) == n);
                    }
                    break ;
                },
                Seen::Text(text) => {
                    let t = chars_of(text.as_str());
                    push_all(&mut generated, &t);
                    proof {
                        let next = events@.push(e);
                        assert(next.drop_last() == events@);
                        assert(next.last() == e);
                        assert(body.take(n + 1) == body.take(n).push(body[n]));
                    }
                    events.push(e);
                },
                _ => {
                    proof {
                        let next = events@.push(e);
                        assert(next.drop_last() == events@);
                        assert(next.last() == e);
                        assert(heading_text(events@) + Seq::<char>::empty() == heading_text(
                            events@,
                        ));
                        assert(body.take(n + 1) == body.take(n).push(body[n]));
                    }
                    events.push(e);
                },
            }
        }
        let ghost id_view = opt_view(id);
        let id = match id {
            Some(given) => chars_of(given.as_str()),
            None => chars_of(slugify(string_of(&generated).as_str()).as_str()),
        };
        let inner_html = write_html(&events);
        let digits = decimal_of(level as u16);
        let mut res = chars_of("<h");
        push_all(&mut res, &digits);
        push_all(&mut res, &chars_of(" id=\""));
        push_all(&mut res, &id);
        push_all(&mut res, &chars_of("\">"));
        push_all(&mut res, &chars_of(inner_html.as_str()));
        push_all(&mut res, &chars_of("</h"));
        push_all(&mut res, &digits);
        push_all(&mut res, &chars_of(">"));
        let mut target = chars_of(self.url.as_str());
        target.push('#');
        push_all(&mut target, &id);
        let entry = Link {
            url: string_of(&target),
            is_internal: false,
            title: string_of(&generated),
            originating_file_title: None,
            originating_file_url: None,
            link_type: EskerLinkType::Toc { heading_level: level },
        };
        proof {
            let inner = body.take(close_at(body));
            assert(res@ =~= heading_html(level, id_view, inner));
            assert(target@ =~= self.url@ + seq!['#'] + heading_id(id_view, inner));
            assert(entry@ == toc_entry(self.url@, level, id_view, inner));
            assert(link_views(self.toc@.push(entry)) == link_views(self.toc@).push(entry@));
            assert(link_views(self.toc@).push(entry@) =~= link_views(self.toc@) + seq![entry@]);
        }
        self.toc.push(entry);
        Some(make_html(string_of(&res)))
    }

    /// All the events of the stage, and the table of contents that they
    /// make: what was entered already, then the entries of the headings that
    /// come out.
    pub fn collect(self) -> (r: (Vec<Event<'a>>, Vec<Link>))
        ensures
            r.0@ == headings_all(self.rest()),
            link_views(r.1@) == self.toc() + headings_toc(self.url(), self.rest()),
    {
        let mut stage = self;
        let mut out: Vec<Event<'a>> = Vec::new();
        proof {
            assert(out@ + headings_all(stage.rest()) == headings_all(stage.rest()));
        }
        loop
            invariant
                out@ + headings_all(stage.rest()) == headings_all(self.rest()),
                stage.toc() + headings_toc(stage.url(), stage.rest()) == self.toc() + headings_toc(
                    self.url(),
                    self.rest(),
                ),
                stage.url() == self.url(),
            ensures
                out@ == headings_all(self.rest()),
                stage.toc() == self.toc() + headings_toc(self.url(), self.rest()),
            decreases stage.rest().len(),
        {
            let ghost before = stage.rest();
            let ghost listed = stage.toc();
            proof {
                lemma_heading_step_shrinks(before);
            }
            match stage.next() {
                Some(e) => {
                    proof {
                        assert(out@ + (seq![e] + headings_all(stage.rest())) == out@.push(e)
                            + headings_all(stage.rest()));
                        assert(listed + (heading_entry(stage.url(), before) + headings_toc(
                            stage.url(),
                            stage.rest(),
                        )) == (listed + heading_entry(stage.url(), before)) + headings_toc(
                            stage.url(),
                            stage.rest(),
                        ));
                    }
                    out.push(e);
                },
                None => {
                    proof {
                        assert(out@ + Seq::<Event<'static>>::empty() == out@);
                        assert(listed + Seq::<LinkView>::empty() == listed);
                        assert(heading_entry(stage.url(), before) =~= Seq::<LinkView>::empty());
                    }
                    break ;
                },
            }
        }
        (out, stage.toc)
    }
}

} // verus!
