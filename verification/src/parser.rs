//! The pipeline that turns the text of a document into its page.
//!
//! A document is read once, event by event. Links are led to where their
//! targets will be and recorded with the site, and images of the site are
//! looked for below its address. Code blocks are then turned into finished
//! HTML, and so are the headings, each of which enters the table of contents
//! under the identifier that its HTML carries. The page is written from what
//! is left.

pub mod headlines;
pub mod syntax_highlight;

use vstd::prelude::*;
use crate::link::{
    image_event, image_url, internal_link, link_url, link_views, Link, LinkKind, LinkView,
    SiteLinks,
};
use crate::markdown::{
    events_html, link_start, look, markdown_events, shape, tokenize, write_html, EventQueue, Mark,
    Seen, Shape,
};
use crate::md_file::MdFile;
use crate::parser::headlines::{headings_all, headings_toc, ParseHeadlines};
use crate::parser::syntax_highlight::{code_all, CodeBlockSyntaxHighlight, HighlightError};
use crate::site::{with_baseurl, Site};
use pulldown_cmark::Event;
use syntect::parsing::SyntaxSet;

verus! {

/// The document that is being read: the base URL of its site, its own
/// address and its title.
pub struct Origin {
    pub base: Seq<char>,
    pub url: Seq<char>,
    pub title: Seq<char>,
}

/// What reading a document has come to.
pub struct Scan {
    /// A link was opened and its text has not come yet.
    pub capturing: bool,
    /// The link that was opened last.
    pub link: LinkView,
    /// The events that were given on.
    pub out: Seq<Event<'static>>,
    /// The links into the site that were closed.
    pub internal: Seq<LinkView>,
    /// The links out of the site that were closed.
    pub external: Seq<LinkView>,
}

/// A link that leads nowhere yet.
pub open spec fn empty_link() -> LinkView {
    LinkView {
        url: Seq::empty(),
        is_internal: false,
        title: Seq::empty(),
        originating_file_title: None,
        originating_file_url: None,
        link_type: LinkKind::Default,
    }
}

/// Where reading starts, given the links that the site holds already.
pub open spec fn scan_start(internal: Seq<LinkView>, external: Seq<LinkView>) -> Scan {
    Scan { capturing: false, link: empty_link(), out: Seq::empty(), internal, external }
}

/// The record of a link that `doc` opens to `url`.
pub open spec fn opened_link(doc: Origin, kept: LinkView, url: Seq<char>, title: Seq<char>) -> LinkView {
    LinkView {
        url: link_url(doc.base, url),
        is_internal: internal_link(url),
        title,
        originating_file_title: Some(doc.title),
        originating_file_url: Some(doc.url),
        link_type: kept.link_type,
    }
}

/// Reading one more event.
///
/// A link that opens is led to its target and remembered; the text that
/// follows becomes its title; when it closes, it is recorded as a link into
/// the site or out of it. An image is led to the site. Every event is given
/// on, the opening of a link or an image in its new form.
pub open spec fn scan_step(doc: Origin, s: Scan, e: Event<'static>) -> Scan {
    match shape(e) {
        Shape::LinkOpen { url, title } => {
            let link = opened_link(doc, s.link, url, title);
            Scan {
                link,
                capturing: true,
                out: s.out.push(link_start(link.url, with_baseurl(doc.base, link.url))),
                ..s
            }
        },
        Shape::ImageOpen { url } => Scan { out: s.out.push(image_event(doc.base, e, url)), ..s },
        Shape::Text(text) => Scan {
            link: if s.capturing {
                LinkView { title: text, ..s.link }
            } else {
                s.link
            },
            capturing: false,
            out: s.out.push(e),
            ..s
        },
        Shape::LinkClose => if s.link.is_internal {
            Scan { internal: s.internal.push(s.link), out: s.out.push(e), ..s }
        } else {
            Scan { external: s.external.push(s.link), out: s.out.push(e), ..s }
        },
        _ => Scan { out: s.out.push(e), ..s },
    }
}

/// What an event reads as once it was given on. A link leads to its target
/// in the site and is titled with that address; an image of the site is
/// looked for below the base URL; every other event reads as it came.
pub open spec fn rewritten(doc: Origin, sh: Shape) -> Shape {
    match sh {
        Shape::LinkOpen { url, title } => Shape::LinkOpen {
            url: link_url(doc.base, url),
            title: with_baseurl(doc.base, link_url(doc.base, url)),
        },
        Shape::ImageOpen { url } => Shape::ImageOpen { url: image_url(doc.base, url) },
        other => other,
    }
}

/// Whether `given` are the events `events` as they are given on: as many,
/// and each reads as what the one in its place came to.
pub open spec fn given_on(doc: Origin, events: Seq<Event<'static>>, given: Seq<Event<'static>>) -> bool {
    &&& given.len() == events.len()
    &&& forall|i: int|
        0 <= i < events.len() ==> shape(#[trigger] given[i]) == rewritten(doc, shape(events[i]))
}

/// Reading all of `events`, one after the other.
pub open spec fn scan_all(doc: Origin, s: Scan, events: Seq<Event<'static>>) -> Scan
    decreases events.len(),
{
    if events.len() == 0 {
        s
    } else {
        scan_step(doc, scan_all(doc, s, events.drop_last()), events.last())
    }
}

/// The table of contents of the document at `url`, made of its events once
/// they were read: the entries of its headings. None where a code block
/// cannot be highlighted.
pub open spec fn toc_of(set: SyntaxSet, url: Seq<char>, read: Seq<Event<'static>>) -> Seq<LinkView> {
    match code_all(set, read) {
        Ok(coded) => headings_toc(url, coded),
        Err(e) => Seq::empty(),
    }
}

/// The page of a document: its events read, code blocks and headings turned
/// into HTML, and the rest written out. An error where a code block cannot
/// be highlighted.
pub open spec fn page_of(set: SyntaxSet, read: Seq<Event<'static>>) -> Result<
    Seq<char>,
    HighlightError,
> {
    match code_all(set, read) {
        Ok(coded) => Ok(events_html(headings_all(coded))),
        Err(e) => Err(e),
    }
}

/// What is remembered between two events of a document.
pub struct Capture {
    pub capturing: bool,
    pub link: Link,
}

impl Capture {
    /// Nothing is open.
    pub fn new() -> (r: Capture)
        ensures
            !r.capturing,
            r.link@ == empty_link(),
    {
        Capture { capturing: false, link: Link::empty() }
    }
}

/// What has been read, put together from where it is kept.
pub open spec fn scan_of(capture: Capture, out: Seq<Event<'static>>, links: SiteLinks) -> Scan {
    Scan {
        capturing: capture.capturing,
        link: capture.link@,
        out,
        internal: link_views(links.internal@),
        external: link_views(links.external@),
    }
}

/// The document that is read.
pub open spec fn origin_of(site: Site, md_file: MdFile) -> Origin {
    Origin { base: site.config.url@, url: md_file.full_url@, title: md_file.frontmatter.title@ }
}

/// The links that the site holds, as reading starts from them.
pub open spec fn links_start(site: Site) -> Scan {
    scan_start(link_views(site.links.internal@), link_views(site.links.external@))
}

/// Reads one event of the document `md_file` and gives it on.
pub fn rewrite_event<'a>(
    e: Event<'a>,
    capture: &mut Capture,
    out: &mut Vec<Event<'a>>,
    md_file: &MdFile,
    site: &mut Site,
)
    ensures
        scan_of(*final(capture), final(out)@, final(site).links) == scan_step(
            origin_of(*old(site), *md_file),
            scan_of(*old(capture), old(out)@, old(site).links),
            e,
        ),
        final(out)@.len() == old(out)@.len() + 1,
        shape(final(out)@.last()) == rewritten(origin_of(*old(site), *md_file), shape(e)),
        final(site).same_but_links(*old(site)),
{
    let ghost doc = origin_of(*site, *md_file);
    let ghost before = scan_of(*capture, out@, site.links);
    match look(&e) {
        Seen::LinkOpen { url, title } => {
            let tag = Mark::Link { url, title };
            capture.link.fill_from_parser(
                &tag,
                site,
                Some(md_file.full_url.clone()),
                Some(md_file.frontmatter.title.clone()),
            );
            capture.capturing = true;
            out.push(capture.link.for_parser(site));
        },
        Seen::ImageOpen { url } => {
            out.push(Link::update_img_link(&e, url.as_str(), site));
        },
        Seen::Text(text) => {
            if capture.capturing {
                capture.link.title = text.clone();
                capture.capturing = false;
            }
            out.push(e);
        },
        Seen::LinkClose => {
            site.add_link(capture.link.clone());
            out.push(e);
        },
        _ => {
            out.push(e);
        },
    }
    proof {
        let after = scan_of(*final(capture), final(out)@, final(site).links);
        let want = scan_step(doc, before, e);
        assert(after.out == want.out);
        assert(after.link == want.link);
        assert(after.internal == want.internal);
        assert(after.external == want.external);
    }
}

/// Reads the events of the document `md_file` and gives them on: links and
/// images in their new form, the links recorded with the site.
pub fn rewrite_events<'a>(events: Vec<Event<'a>>, md_file: &MdFile, site: &mut Site) -> (r: Vec<
    Event<'a>,
>)
    ensures
        scan_all(origin_of(*old(site), *md_file), links_start(*old(site)), events@).out == r@,
        link_views(final(site).links.internal@) == scan_all(
            origin_of(*old(site), *md_file),
            links_start(*old(site)),
            events@,
        ).internal,
        link_views(final(site).links.external@) == scan_all(
            origin_of(*old(site), *md_file),
            links_start(*old(site)),
            events@,
        ).external,
        given_on(origin_of(*old(site), *md_file), events@, r@),
        final(site).same_but_links(*old(site)),
{
    let ghost doc = origin_of(*site, *md_file);
    let ghost start = links_start(*site);
    let mut queue = EventQueue::new(events);
    let mut capture = Capture::new();
    let mut out: Vec<Event<'a>> = Vec::new();
    let ghost mut done: int = 0;
    proof {
        assert(events@.take(0) == Seq::<Event<'static>>::empty());
        assert(events@.skip(0) == events@);
        assert(scan_of(capture, out@, site.links) == start);
    }
    loop
        invariant
            0 <= done <= events@.len(),
            queue.rest() == events@.skip(done),
            scan_of(capture, out@, site.links) == scan_all(doc, start, events@.take(done)),
            origin_of(*site, *md_file) == doc,
            site.same_but_links(*old(site)),
            out@.len() == done,
            forall|i: int|
                0 <= i < done ==> shape(#[trigger] out@[i]) == rewritten(doc, shape(events@[i])),
        ensures
            scan_of(capture, out@, site.links) == scan_all(doc, start, events@),
            site.same_but_links(*old(site)),
            out@.len() == events@.len(),
            forall|i: int|
                0 <= i < events@.len() ==> shape(#[trigger] out@[i]) == rewritten(
                    doc,
                    shape(events@[i]),
                ),
        decreases events@.len() - done,
    {
        let e = match queue.pop_front() {
            Some(e) => e,
            None => {
                proof {
                    assert(events@.take(done) == events@);
                }
                break ;
            },
        };
        proof {
            assert(e == events@[done]);
            assert(events@.take(done + 1).drop_last() == events@.take(done));
            assert(events@.take(done + 1).last() == e);
            assert(events@.skip(done).skip(1) == events@.skip(done + 1));
        }
        let ghost given = out@;
        rewrite_event(e, &mut capture, &mut out, md_file, site);
        proof {
            assert(out@.drop_last() == given);
            assert forall|i: int| 0 <= i < done + 1 implies shape(#[trigger] out@[i]) == rewritten(
                doc,
                shape(events@[i]),
            ) by {
                if i < done {
                    assert(out@[i] == given[i]);
                }
            }
            done = done + 1;
        }
    }
    out
}

/// The page of the document `md_file`, made of its text. The links of the
/// document are recorded with the site, and its headings enter its table of
/// contents, each under the identifier that it carries in the page. Where a
/// code block cannot be highlighted the table stays as it was.
pub fn new(md_file: &mut MdFile, site: &mut Site, set: &SyntaxSet) -> (r: Result<
    String,
    HighlightError,
>)
    ensures
        ({
            let read = scan_all(
                origin_of(*old(site), *old(md_file)),
                links_start(*old(site)),
                markdown_events(old(md_file).raw@),
            );
            &&& match r {
                Ok(html) => page_of(*set, read.out) == Ok::<Seq<char>, HighlightError>(html@),
                Err(e) => page_of(*set, read.out) == Err::<Seq<char>, HighlightError>(e),
            }
            &&& link_views(final(site).links.internal@) == read.internal
            &&& link_views(final(site).links.external@) == read.external
            &&& link_views(final(md_file).toc@) == link_views(old(md_file).toc@) + toc_of(
                *set,
                old(md_file).full_url@,
                read.out,
            )
            &&& given_on(
                origin_of(*old(site), *old(md_file)),
                markdown_events(old(md_file).raw@),
                read.out,
            )
        }),
        final(site).same_but_links(*old(site)),
        final(md_file).same_but_toc(*old(md_file)),
{
    let raw = md_file.raw.clone();
    let events = tokenize(raw.as_str());
    let read = rewrite_events(events, md_file, site);
    let coded = match CodeBlockSyntaxHighlight::new(read).collect(set) {
        Ok(coded) => coded,
        Err(e) => {
            assert(link_views(md_file.toc@) + Seq::<LinkView>::empty() == link_views(
                md_file.toc@,
            ));
            return Err(e);
        },
    };
    let (headed, mut entries) = ParseHeadlines::new(coded, md_file.full_url.as_str()).collect();
    proof {
        assert(link_views(md_file.toc@ + entries@) =~= link_views(md_file.toc@) + link_views(
            entries@,
        ));
    }
    md_file.toc.append(&mut entries);
    Ok(write_html(&headed))
}

} // verus!
