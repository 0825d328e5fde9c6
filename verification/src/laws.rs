//! What holds of the library as a whole.
//!
//! Each statement here relates several functions of the library and is
//! proved from what those functions promise.

use vstd::prelude::*;
use crate::link::{internal_link, link_url, slug_chunk, slugged_target, Link, LinkView};
use crate::parser::syntax_highlight::code_all;
use crate::parser::{given_on, rewritten, scan_all, scan_step, toc_of, Origin, Scan};
use crate::markdown::{html_piece, shape, Shape};
use crate::md_file::{
    backlinks_of, has_origin, has_url, leads_back, normalized, reference_warnings, related_of,
    same_origin, tagged, with_tagged, MdFileView,
};
use crate::parser::headlines::{
    close_at, heading_entry, heading_html, heading_id, heading_open, heading_step, heading_text,
    headings_toc, lemma_close_at, toc_entry,
};
use crate::markdown::markdown_events;
use crate::scan::{
    all_finished, built, candidates_of, lemma_pages_stay_failed, read_document, date_errors_of, documents_of, entry_of, finished,
    invalid_of, new_document, pages_of, published, scanned, tag_list_of, valid, SourceFile,
};
use crate::errors::{warning_views, DateField};
use crate::orchestrator::{full_rebuild, markdown_rebuild, BuildStep};
use crate::site::Rebuild;
use crate::watch::{markdown, steps_of, template_or_config, wanted, ChangeKind};
use crate::link::{link_views, LinkKind};
use crate::frontmatter::{block_of, fence, frontmatter_block, has_frontmatter};
use crate::md_file::{after_fence, body_lines, doc_views};
use crate::index::{first_candidate, with_entries};
use crate::site::Site;
use crate::slug::slug_of;
use crate::table::Table;
use crate::text::{occurs_at, replace_all, starts_with, string_views};
use pulldown_cmark::Event;
use syntect::parsing::SyntaxSet;

verus! {

/// A text with each space written as `%20`.
pub open spec fn percent_encoded(x: Seq<char>) -> Seq<char>
    decreases x.len(),
{
    if x.len() == 0 {
        Seq::empty()
    } else if x[0] == ' ' {
        "%20"@ + percent_encoded(x.skip(1))
    } else {
        seq![x[0]] + percent_encoded(x.skip(1))
    }
}

/// A text with each space written as a hyphen.
pub open spec fn hyphenated(x: Seq<char>) -> Seq<char>
    decreases x.len(),
{
    if x.len() == 0 {
        Seq::empty()
    } else if x[0] == ' ' {
        seq!['-'] + hyphenated(x.skip(1))
    } else {
        seq![x[0]] + hyphenated(x.skip(1))
    }
}

/// Slugs are determined by the text: two link targets that are the same text
/// have the same slug and lead to the same address.
pub proof fn law_slug_determinism(base: Seq<char>, a: Seq<char>, b: Seq<char>)
    requires
        a == b,
    ensures
        slug_of(a) == slug_of(b),
        slug_chunk(a) == slug_chunk(b),
        slugged_target(a) == slugged_target(b),
        link_url(base, a) == link_url(base, b),
{
}

/// Reading `%20` as a hyphen undoes the percent-encoding of spaces up to the
/// hyphen: a text without a percent sign whose spaces were encoded is read
/// as the text with hyphens for its spaces, and so both have one slug.
pub proof fn law_percent_round_trip(x: Seq<char>)
    requires
        !x.contains('%'),
    ensures
        replace_all(percent_encoded(x), "%20"@, "-"@) == hyphenated(x),
        slug_of(replace_all(percent_encoded(x), "%20"@, "-"@)) == slug_of(hyphenated(x)),
    decreases x.len(),
{
    reveal_strlit("%20");
    reveal_strlit("-");
    let from = "%20"@;
    let to = "-"@;
    assert(from.len() == 3);
    assert(from[0] == '%');
    assert(to.len() == 1);
    assert(to[0] == '-');
    assert(to =~= seq!['-']);
    if x.len() > 0 {
        let rest = x.skip(1);
        assert forall|j: int| 0 <= j < rest.len() implies rest[j] != '%' by {
            assert(rest[j] == x[j + 1]);
            assert(x.contains(x[j + 1]));
        }
        assert(!rest.contains('%'));
        law_percent_round_trip(rest);
        let e = percent_encoded(x);
        let tail = percent_encoded(rest);
        if x[0] == ' ' {
            assert(e == from + tail);
            assert(e.subrange(0, 3) =~= from);
            assert(occurs_at(e, 0, from));
            assert(e.skip(3) =~= tail);
            assert(replace_all(e, from, to) == to + replace_all(tail, from, to));
        } else {
            assert(x.contains(x[0]));
            assert(e == seq![x[0]] + tail);
            assert(e[0] == x[0]);
            assert(e[0] != '%');
            if occurs_at(e, 0, from) {
                assert(e.subrange(0, 3)[0] == from[0]);
            }
            assert(!occurs_at(e, 0, from));
            assert(e.skip(1) =~= tail);
            assert(replace_all(e, from, to) == seq![e[0]] + replace_all(tail, from, to));
        }
    } else {
        assert(percent_encoded(x) =~= Seq::<char>::empty());
    }
}

/// Every link that counts as a backlink of `url` has its origin among the
/// backlinks.
pub proof fn lemma_backlinks_cover(url: Seq<char>, links: Seq<LinkView>, i: int)
    requires
        0 <= i < links.len(),
        leads_back(url, links[i]),
    ensures
        has_origin(backlinks_of(url, links), links[i]),
    decreases links.len(),
{
    let before = backlinks_of(url, links.drop_last());
    let found = backlinks_of(url, links);
    if i == links.len() - 1 {
        if !has_origin(before, links.last()) {
            assert(found == before.push(links.last()));
            assert(same_origin(found[found.len() - 1], links[i]));
        }
    } else {
        assert(links.drop_last()[i] == links[i]);
        lemma_backlinks_cover(url, links.drop_last(), i);
        let k = choose|k: int| 0 <= k < before.len() && same_origin(#[trigger] before[k], links[i]);
        assert(found[k] == before[k]);
        assert(same_origin(found[k], links[i]));
    }
}

/// Every backlink of `url` leads to `url` from another document.
pub proof fn lemma_backlinks_lead_back(url: Seq<char>, links: Seq<LinkView>)
    ensures
        forall|j: int|
            0 <= j < backlinks_of(url, links).len() ==> leads_back(
                url,
                #[trigger] backlinks_of(url, links)[j],
            ),
    decreases links.len(),
{
    if links.len() > 0 {
        lemma_backlinks_lead_back(url, links.drop_last());
        let before = backlinks_of(url, links.drop_last());
        let found = backlinks_of(url, links);
        assert forall|j: int| 0 <= j < found.len() implies leads_back(url, #[trigger] found[j]) by {
            if j < before.len() {
                assert(found[j] == before[j]);
            }
        }
    }
}

/// Backlinks mirror links. Where the links into the site hold one that leads
/// from the document at `b` to the document at `a`, and the two are not one
/// document, the backlinks of `a` hold an entry that comes from `b`. And no
/// document is among its own backlinks: every entry leads to `a` and comes
/// from elsewhere.
pub proof fn law_backlink_symmetry(links: Seq<LinkView>, a: Seq<char>, b: Seq<char>, i: int)
    requires
        0 <= i < links.len(),
        links[i].url == a,
        links[i].originating_file_url == Some(b),
        a != b,
    ensures
        exists|j: int|
            0 <= j < backlinks_of(a, links).len() && (#[trigger] backlinks_of(
                a,
                links,
            )[j]).originating_file_url == Some(b),
        forall|j: int|
            0 <= j < backlinks_of(a, links).len() ==> (#[trigger] backlinks_of(a, links)[j]).url
                == a && backlinks_of(a, links)[j].originating_file_url != Some(a),
{
    lemma_backlinks_cover(a, links, i);
    lemma_backlinks_lead_back(a, links);
    let found = backlinks_of(a, links);
    let k = choose|k: int| 0 <= k < found.len() && same_origin(#[trigger] found[k], links[i]);
    assert(found[k].originating_file_url == Some(b));
}

/// Reading on never takes a recorded link away.
pub proof fn lemma_links_stay(doc: Origin, s: Scan, events: Seq<Event<'static>>, n: int)
    requires
        0 <= n <= events.len(),
    ensures
        scan_all(doc, s, events.take(n)).internal.len() <= scan_all(doc, s, events).internal.len(),
        forall|k: int|
            0 <= k < scan_all(doc, s, events.take(n)).internal.len() ==> scan_all(
                doc,
                s,
                events,
            ).internal[k] == #[trigger] scan_all(doc, s, events.take(n)).internal[k],
    decreases events.len() - n,
{
    if n < events.len() {
        lemma_links_stay(doc, s, events, n + 1);
        assert(events.take(n + 1).drop_last() == events.take(n));
        let before = scan_all(doc, s, events.take(n));
        let after = scan_all(doc, s, events.take(n + 1));
        assert(after == scan_step(doc, before, events[n]));
        assert forall|k: int| 0 <= k < before.internal.len() implies scan_all(
            doc,
            s,
            events,
        ).internal[k] == #[trigger] before.internal[k] by {
            assert(after.internal[k] == before.internal[k]);
        }
    } else {
        assert(events.take(n) == events);
    }
}

/// A link that was opened is remembered until the next one is opened:
/// where it leads, that it leads into the site, and where it comes from.
pub proof fn lemma_link_is_kept(
    doc: Origin,
    s: Scan,
    events: Seq<Event<'static>>,
    i: int,
    n: int,
    url: Seq<char>,
    title: Seq<char>,
)
    requires
        0 <= i < n <= events.len(),
        shape(events[i]) == (Shape::LinkOpen { url, title }),
        forall|k: int| i < k < n ==> !(shape(#[trigger] events[k]) is LinkOpen),
    ensures
        scan_all(doc, s, events.take(n)).link.url == link_url(doc.base, url),
        scan_all(doc, s, events.take(n)).link.is_internal == internal_link(url),
        scan_all(doc, s, events.take(n)).link.originating_file_url == Some(doc.url),
        scan_all(doc, s, events.take(n)).link.originating_file_title == Some(doc.title),
    decreases n - i,
{
    assert(events.take(n).drop_last() == events.take(n - 1));
    assert(events.take(n).last() == events[n - 1]);
    if n - 1 > i {
        lemma_link_is_kept(doc, s, events, i, n - 1, url, title);
    }
}

/// The links of a document reach the index. Where a document opens a link
/// into the site and closes it, no other link opened in between, the links
/// that reading the document records hold one that leads where the link
/// leads and comes from the document.
pub proof fn law_links_are_recorded(
    doc: Origin,
    s: Scan,
    events: Seq<Event<'static>>,
    i: int,
    j: int,
    url: Seq<char>,
    title: Seq<char>,
)
    requires
        0 <= i < j < events.len(),
        shape(events[i]) == (Shape::LinkOpen { url, title }),
        shape(events[j]) == Shape::LinkClose,
        forall|k: int| i < k < j ==> !(shape(#[trigger] events[k]) is LinkOpen),
        internal_link(url),
    ensures
        exists|k: int|
            0 <= k < scan_all(doc, s, events).internal.len() && (#[trigger] scan_all(
                doc,
                s,
                events,
            ).internal[k]).url == link_url(doc.base, url) && scan_all(
                doc,
                s,
                events,
            ).internal[k].originating_file_url == Some(doc.url),
{
    lemma_link_is_kept(doc, s, events, i, j, url, title);
    let before = scan_all(doc, s, events.take(j));
    let after = scan_all(doc, s, events.take(j + 1));
    assert(events.take(j + 1).drop_last() == events.take(j));
    assert(events.take(j + 1).last() == events[j]);
    assert(after.internal == before.internal.push(before.link));
    let k = before.internal.len() as int;
    assert(after.internal[k] == before.link);
    lemma_links_stay(doc, s, events, j + 1);
    assert(scan_all(doc, s, events).internal[k] == after.internal[k]);
}

/// What `with_tagged` adds and what it keeps.
pub proof fn lemma_with_tagged(found: Seq<LinkView>, url: Seq<char>, entries: Seq<LinkView>)
    ensures
        forall|u: Seq<char>| has_url(found, u) ==> has_url(with_tagged(found, url, entries), u),
        forall|u: Seq<char>|
            u != url && has_url(entries, u) ==> has_url(with_tagged(found, url, entries), u),
        !has_url(found, url) ==> !has_url(with_tagged(found, url, entries), url),
    decreases entries.len(),
{
    if entries.len() > 0 {
        let shorter = entries.drop_last();
        let before = with_tagged(found, url, shorter);
        let after = with_tagged(found, url, entries);
        lemma_with_tagged(found, url, shorter);
        assert forall|u: Seq<char>| has_url(before, u) implies has_url(after, u) by {
            let k = choose|k: int| 0 <= k < before.len() && (#[trigger] before[k]).url == u;
            assert(after[k] == before[k]);
        }
        assert forall|u: Seq<char>| u != url && has_url(entries, u) implies has_url(after, u) by {
            let k = choose|k: int| 0 <= k < entries.len() && (#[trigger] entries[k]).url == u;
            if k < entries.len() - 1 {
                assert(shorter[k] == entries[k]);
                assert(has_url(shorter, u));
            } else if has_url(before, u) {
            } else {
                assert(after == before.push(entries.last()));
                assert(after[after.len() - 1].url == u);
            }
        }
        if !has_url(found, url) && has_url(after, url) {
            let k = choose|k: int| 0 <= k < after.len() && (#[trigger] after[k]).url == url;
            if k < before.len() {
                assert(before[k] == after[k]);
                assert(has_url(before, url));
            }
        }
    }
}

/// The related documents of `url` hold every other document that is listed
/// under one of `tags`, and never `url` itself.
pub proof fn lemma_related(url: Seq<char>, tags: Seq<Seq<char>>, table: Table<Vec<Link>>)
    ensures
        forall|t: int, u: Seq<char>|
            0 <= t < tags.len() && u != url && has_url(tagged(table, #[trigger] tags[t]), u)
                ==> #[trigger] has_url(related_of(url, tags, table), u),
        !has_url(related_of(url, tags, table), url),
    decreases tags.len(),
{
    if tags.len() > 0 {
        let shorter = tags.drop_last();
        let before = related_of(url, shorter, table);
        lemma_related(url, shorter, table);
        lemma_with_tagged(before, url, tagged(table, tags.last()));
        assert forall|t: int, u: Seq<char>|
            0 <= t < tags.len() && u != url && has_url(
                tagged(table, #[trigger] tags[t]),
                u,
            ) implies #[trigger] has_url(related_of(url, tags, table), u) by {
            if t < tags.len() - 1 {
                assert(shorter[t] == tags[t]);
                assert(has_url(before, u));
            }
        }
    } else {
        assert(related_of(url, tags, table) =~= Seq::<LinkView>::empty());
    }
}

/// Tags close over the documents that carry them. Where the documents at `d`
/// and at `e` are two documents that both carry `tag` and are both listed
/// under it in the table of the site, each is among the related documents of
/// the other, and neither is among its own.
pub proof fn law_tag_closure(
    table: Table<Vec<Link>>,
    tag: Seq<char>,
    d: Seq<char>,
    d_tags: Seq<Seq<char>>,
    e: Seq<char>,
    e_tags: Seq<Seq<char>>,
)
    requires
        d != e,
        d_tags.contains(tag),
        e_tags.contains(tag),
        has_url(tagged(table, tag), d),
        has_url(tagged(table, tag), e),
    ensures
        has_url(related_of(e, e_tags, table), d),
        has_url(related_of(d, d_tags, table), e),
        !has_url(related_of(d, d_tags, table), d),
        !has_url(related_of(e, e_tags, table), e),
{
    lemma_related(d, d_tags, table);
    lemma_related(e, e_tags, table);
    let i = choose|i: int| 0 <= i < d_tags.len() && d_tags[i] == tag;
    let j = choose|j: int| 0 <= j < e_tags.len() && e_tags[j] == tag;
    assert(has_url(tagged(table, d_tags[i]), e));
    assert(has_url(tagged(table, e_tags[j]), d));
}

/// A list of a tag keeps what it holds when documents are entered, and holds
/// the entry of each document that names the tag.
pub proof fn lemma_with_entries(
    list: Seq<LinkView>,
    tag: Seq<char>,
    tags: Seq<Seq<char>>,
    entry: LinkView,
)
    ensures
        forall|u: Seq<char>| has_url(list, u) ==> has_url(with_entries(list, tag, tags, entry), u),
        tags.contains(tag) ==> has_url(with_entries(list, tag, tags, entry), entry.url),
    decreases tags.len(),
{
    if tags.len() > 0 {
        let shorter = tags.drop_last();
        let before = with_entries(list, tag, shorter, entry);
        let after = with_entries(list, tag, tags, entry);
        lemma_with_entries(list, tag, shorter, entry);
        assert forall|u: Seq<char>| has_url(before, u) implies has_url(after, u) by {
            let k = choose|k: int| 0 <= k < before.len() && (#[trigger] before[k]).url == u;
            assert(after[k] == before[k]);
        }
        if tags.contains(tag) {
            if tags.last() == tag {
                assert(after == before.push(entry));
                assert(after[after.len() - 1].url == entry.url);
            } else {
                let k = choose|k: int| 0 <= k < tags.len() && tags[k] == tag;
                assert(shorter[k] == tag);
                assert(shorter.contains(tag));
            }
        }
    }
}

/// Every document is listed under each tag that it carries.
pub proof fn law_tagged_documents_are_listed(docs: Seq<MdFileView>, i: int, tag: Seq<char>)
    requires
        0 <= i < docs.len(),
        docs[i].frontmatter.tags.contains(tag),
    ensures
        has_url(tag_list_of(docs, tag), docs[i].full_url),
    decreases docs.len(),
{
    let shorter = docs.drop_last();
    lemma_with_entries(
        tag_list_of(shorter, tag),
        tag,
        docs.last().frontmatter.tags,
        entry_of(docs.last()),
    );
    if i < docs.len() - 1 {
        assert(shorter[i] == docs[i]);
        law_tagged_documents_are_listed(shorter, i, tag);
    }
}

/// Tags close over the documents of a build. Once the first pass has read
/// `sources`, any two of its documents with different addresses that share a
/// tag are among the related documents of each other.
pub proof fn law_tag_closure_of_build(
    site: Site,
    start: Site,
    sources: Seq<SourceFile>,
    i: int,
    j: int,
    tag: Seq<char>,
)
    requires
        scanned(site, start, sources),
        0 <= i < documents_of(start, sources).len(),
        0 <= j < documents_of(start, sources).len(),
        documents_of(start, sources)[i].full_url != documents_of(start, sources)[j].full_url,
        documents_of(start, sources)[i].frontmatter.tags.contains(tag),
        documents_of(start, sources)[j].frontmatter.tags.contains(tag),
    ensures
        has_url(
            related_of(
                documents_of(start, sources)[j].full_url,
                documents_of(start, sources)[j].frontmatter.tags,
                site.tags,
            ),
            documents_of(start, sources)[i].full_url,
        ),
        has_url(
            related_of(
                documents_of(start, sources)[i].full_url,
                documents_of(start, sources)[i].frontmatter.tags,
                site.tags,
            ),
            documents_of(start, sources)[j].full_url,
        ),
{
    let docs = documents_of(start, sources);
    law_tagged_documents_are_listed(docs, i, tag);
    law_tagged_documents_are_listed(docs, j, tag);
    assert(tagged(site.tags, tag) == tag_list_of(docs, tag));
    law_tag_closure(
        site.tags,
        tag,
        docs[i].full_url,
        docs[i].frontmatter.tags,
        docs[j].full_url,
        docs[j].frontmatter.tags,
    );
}

/// The identifier of a heading is stable. A heading that is closed comes out
/// as one piece of HTML that starts with its opening tag, and the identifier
/// in that tag is the one that the heading was given, whatever stands in the
/// heading; where it was given none, it is the slug of the text in it.
pub proof fn law_heading_id(rest: Seq<Event<'static>>, level: u8, id: Option<Seq<char>>)
    requires
        rest.len() > 0,
        shape(rest[0]) == (Shape::HeadingOpen { level, id }),
        close_at(rest.skip(1)) < rest.skip(1).len(),
    ensures
        ({
            let inner = rest.skip(1).take(close_at(rest.skip(1)));
            let html = heading_html(level, id, inner);
            &&& heading_step(rest).0 == Some(html_piece(html))
            &&& starts_with(html, heading_open(level, heading_id(id, inner)))
            &&& id matches Some(given) ==> starts_with(html, heading_open(level, given))
            &&& id is None ==> starts_with(html, heading_open(level, slug_of(heading_text(inner))))
        }),
{
    let inner = rest.skip(1).take(close_at(rest.skip(1)));
    let html = heading_html(level, id, inner);
    let open = heading_open(level, heading_id(id, inner));
    assert(html.subrange(0, open.len() as int) =~= open);
}

/// Lines with a fence among them are the lines before the first fence, the
/// fence, and the lines behind it. Lines without a fence are all before it,
/// and nothing is behind.
pub proof fn lemma_split_at_fence(rest: Seq<Seq<char>>)
    ensures
        !block_of(rest).contains(fence()),
        rest.contains(fence()) ==> rest == block_of(rest) + seq![fence()] + after_fence(rest),
        !rest.contains(fence()) ==> block_of(rest) == rest && after_fence(rest).len() == 0,
    decreases rest.len(),
{
    if rest.len() > 0 {
        let tail = rest.skip(1);
        lemma_split_at_fence(tail);
        if rest[0] == fence() {
            assert(rest.contains(fence()));
            assert(block_of(rest) + seq![fence()] + after_fence(rest) =~= rest);
        } else {
            let b = block_of(rest);
            assert(b == seq![rest[0]] + block_of(tail));
            assert forall|i: int| 0 <= i < b.len() implies b[i] != fence() by {
                if i > 0 {
                    assert(b[i] == block_of(tail)[i - 1]);
                    assert(block_of(tail).contains(block_of(tail)[i - 1]));
                }
            }
            if rest.contains(fence()) {
                let k = choose|k: int| 0 <= k < rest.len() && rest[k] == fence();
                assert(tail[k - 1] == rest[k]);
                assert(tail.contains(fence()));
                assert(b + seq![fence()] + after_fence(rest) =~= seq![rest[0]] + (block_of(tail)
                    + seq![fence()] + after_fence(tail)));
                assert(seq![rest[0]] + tail =~= rest);
            } else {
                assert forall|i: int| 0 <= i < tail.len() implies tail[i] != fence() by {
                    assert(tail[i] == rest[i + 1]);
                    assert(rest.contains(rest[i + 1]));
                }
                assert(!tail.contains(fence()));
                assert(seq![rest[0]] + tail =~= rest);
            }
        }
    } else {
        assert(block_of(rest) =~= rest);
    }
}

/// A document is its frontmatter and its body. Where the first line is the
/// fence and a later one closes the block, the lines of the document are
/// the fence, the block, in which no fence stands, the fence, and the body:
/// only the block at the start is frontmatter, and every line behind it is
/// body, a later fence too. Where no line closes the block, all behind the
/// first line is frontmatter and the body is empty. A document that does not
/// start with the fence is all body.
pub proof fn law_document_splits(lines: Seq<Seq<char>>)
    ensures
        !frontmatter_block(lines).contains(fence()),
        has_frontmatter(lines) && lines.skip(1).contains(fence()) ==> lines == seq![fence()]
            + frontmatter_block(lines) + seq![fence()] + body_lines(lines),
        has_frontmatter(lines) && !lines.skip(1).contains(fence()) ==> lines == seq![fence()]
            + frontmatter_block(lines) && body_lines(lines).len() == 0,
        !has_frontmatter(lines) ==> body_lines(lines) == lines,
{
    if lines.len() > 0 {
        lemma_split_at_fence(lines.skip(1));
        if has_frontmatter(lines) {
            assert(seq![lines[0]] + lines.skip(1) =~= lines);
            if lines.skip(1).contains(fence()) {
                assert(seq![fence()] + frontmatter_block(lines) + seq![fence()] + body_lines(lines)
                    =~= seq![lines[0]] + (block_of(lines.skip(1)) + seq![fence()] + after_fence(
                    lines.skip(1),
                )));
            }
        }
    } else {
        assert(!Seq::<Seq<char>>::empty().contains(fence()));
    }
}

/// The table of contents and the page agree. A heading that is closed comes
/// out as one piece of HTML and is entered once in the table of contents of
/// its document. The entry leads to the address of the document, `#`, and
/// the very identifier that the opening tag of the heading carries: the one
/// that the heading was given, else the slug of its text. The entry carries
/// the level of the heading and is titled with its text.
pub proof fn law_toc_matches_heading(
    url: Seq<char>,
    rest: Seq<Event<'static>>,
    level: u8,
    id: Option<Seq<char>>,
)
    requires
        rest.len() > 0,
        shape(rest[0]) == (Shape::HeadingOpen { level, id }),
        close_at(rest.skip(1)) < rest.skip(1).len(),
    ensures
        ({
            let inner = rest.skip(1).take(close_at(rest.skip(1)));
            let html = heading_html(level, id, inner);
            let shown = heading_id(id, inner);
            let entries = heading_entry(url, rest);
            &&& heading_step(rest).0 == Some(html_piece(html))
            &&& starts_with(html, heading_open(level, shown))
            &&& entries.len() == 1
            &&& entries[0].url == url + seq!['#'] + shown
            &&& entries[0].title == heading_text(inner)
            &&& entries[0].link_type == (LinkKind::Toc { heading_level: level })
        }),
{
    let inner = rest.skip(1).take(close_at(rest.skip(1)));
    let html = heading_html(level, id, inner);
    let open = heading_open(level, heading_id(id, inner));
    assert(html.subrange(0, open.len() as int) =~= open);
    assert(heading_entry(url, rest) == seq![toc_entry(url, level, id, inner)]);
}

/// What is no closed heading leaves the table of contents as it is.
pub proof fn law_toc_holds_headings_only(url: Seq<char>, rest: Seq<Event<'static>>)
    requires
        rest.len() == 0 || !(shape(rest[0]) is HeadingOpen) || close_at(rest.skip(1))
            >= rest.skip(1).len(),
    ensures
        heading_entry(url, rest).len() == 0,
{
}

/// Events that are given on close their first heading where they did, and
/// the text of a heading among them is what it was.
pub proof fn lemma_given_on_keeps_text(
    doc: Origin,
    events: Seq<Event<'static>>,
    given: Seq<Event<'static>>,
)
    requires
        given_on(doc, events, given),
    ensures
        close_at(given) == close_at(events),
        heading_text(given) == heading_text(events),
    decreases events.len(),
{
    if events.len() > 0 {
        assert(shape(given[0]) == rewritten(doc, shape(events[0])));
        assert(shape(given.last()) == rewritten(doc, shape(events.last())));
        assert(given_on(doc, events.skip(1), given.skip(1))) by {
            assert forall|i: int| 0 <= i < events.skip(1).len() implies shape(
                #[trigger] given.skip(1)[i],
            ) == rewritten(doc, shape(events.skip(1)[i])) by {
                assert(given.skip(1)[i] == given[i + 1]);
            }
        }
        assert(given_on(doc, events.drop_last(), given.drop_last())) by {
            assert forall|i: int| 0 <= i < events.drop_last().len() implies shape(
                #[trigger] given.drop_last()[i],
            ) == rewritten(doc, shape(events.drop_last()[i])) by {
                assert(given.drop_last()[i] == given[i]);
            }
        }
        lemma_given_on_keeps_text(doc, events.skip(1), given.skip(1));
        lemma_given_on_keeps_text(doc, events.drop_last(), given.drop_last());
    }
}

/// Rewriting links and images changes no heading. The table of contents
/// that is made of events once they were given on is the one that would be
/// made of the events as they came: entry for entry the same address, title
/// and level.
pub proof fn law_rewriting_keeps_toc(
    doc: Origin,
    url: Seq<char>,
    events: Seq<Event<'static>>,
    given: Seq<Event<'static>>,
)
    requires
        given_on(doc, events, given),
    ensures
        headings_toc(url, given) == headings_toc(url, events),
    decreases events.len(),
{
    if events.len() > 0 {
        assert(shape(given[0]) == rewritten(doc, shape(events[0])));
        let body = events.skip(1);
        let gbody = given.skip(1);
        assert(given_on(doc, body, gbody)) by {
            assert forall|i: int| 0 <= i < body.len() implies shape(#[trigger] gbody[i])
                == rewritten(doc, shape(body[i])) by {
                assert(gbody[i] == given[i + 1]);
            }
        }
        lemma_given_on_keeps_text(doc, body, gbody);
        lemma_close_at(body);
        let k = close_at(body);
        let left = heading_step(events).1;
        let gleft = heading_step(given).1;
        if shape(events[0]) is HeadingOpen {
            if k < body.len() {
                assert(given_on(doc, body.take(k), gbody.take(k))) by {
                    assert forall|i: int| 0 <= i < k implies shape(#[trigger] gbody.take(k)[i])
                        == rewritten(doc, shape(body.take(k)[i])) by {
                        assert(gbody.take(k)[i] == gbody[i]);
                    }
                }
                lemma_given_on_keeps_text(doc, body.take(k), gbody.take(k));
                assert(left == body.skip(k + 1));
                assert(gleft == gbody.skip(k + 1));
                assert(given_on(doc, left, gleft)) by {
                    assert forall|i: int| 0 <= i < left.len() implies shape(#[trigger] gleft[i])
                        == rewritten(doc, shape(left[i])) by {
                        assert(gleft[i] == gbody[i + k + 1]);
                    }
                }
                law_rewriting_keeps_toc(doc, url, left, gleft);
            }
        } else {
            law_rewriting_keeps_toc(doc, url, body, gbody);
        }
    }
}

/// Where no code block is fenced, the stage that highlights code gives every
/// event on as it came.
pub proof fn law_without_code_nothing_changes(set: SyntaxSet, events: Seq<Event<'static>>)
    requires
        forall|i: int| 0 <= i < events.len() ==> !(shape(#[trigger] events[i]) is FencedCode),
    ensures
        code_all(set, events) == Ok::<Seq<Event<'static>>, crate::parser::syntax_highlight::HighlightError>(
            events,
        ),
    decreases events.len(),
{
    if events.len() > 0 {
        let rest = events.skip(1);
        assert(!(shape(events[0]) is FencedCode));
        assert forall|i: int| 0 <= i < rest.len() implies !(shape(#[trigger] rest[i]) is FencedCode) by {
            assert(rest[i] == events[i + 1]);
        }
        law_without_code_nothing_changes(set, rest);
        assert(seq![events[0]] + rest =~= events);
    } else {
        assert(events =~= Seq::<Event<'static>>::empty());
    }
}

/// The table of contents of a document follows from its text. Where the
/// events of a document hold no fenced code block, the table of contents
/// that is made once they were given on is the one of the events as the
/// tokenizer gave them.
pub proof fn law_toc_of_text(
    set: SyntaxSet,
    doc: Origin,
    url: Seq<char>,
    events: Seq<Event<'static>>,
    given: Seq<Event<'static>>,
)
    requires
        given_on(doc, events, given),
        forall|i: int| 0 <= i < events.len() ==> !(shape(#[trigger] events[i]) is FencedCode),
    ensures
        toc_of(set, url, given) == headings_toc(url, events),
{
    assert forall|i: int| 0 <= i < given.len() implies !(shape(#[trigger] given[i]) is FencedCode) by {
        assert(shape(given[i]) == rewritten(doc, shape(events[i])));
    }
    law_without_code_nothing_changes(set, given);
    law_rewriting_keeps_toc(doc, url, events, given);
}

/// What a short reference means depends only on the paths that are
/// registered under its name.
pub proof fn lemma_normalized_same(a: Table<Vec<String>>, b: Table<Vec<String>>, s: Seq<char>)
    requires
        forall|k: Seq<char>|
            #![trigger a.list(k)]
            string_views(a.list(k)) == string_views(b.list(k)),
    ensures
        normalized(a, s) == normalized(b, s),
        forall|file: Seq<char>|
            #![trigger reference_warnings(a, file, s)]
            reference_warnings(a, file, s) == reference_warnings(b, file, s),
    decreases s.len(),
{
    if s.len() > 0 {
        match crate::md_file::wikilink_at(s) {
            Some(n) => {
                if 0 < n && n + 4 <= s.len() {
                    let name = s.subrange(2, n + 2);
                    assert(string_views(a.list(name)) == string_views(b.list(name)));
                    assert(string_views(a.list(name)).len() == a.list(name).len());
                    assert(string_views(b.list(name)).len() == b.list(name).len());
                    if a.list(name).len() > 0 {
                        assert(string_views(a.list(name))[0] == a.list(name)[0]@);
                        assert(string_views(b.list(name))[0] == b.list(name)[0]@);
                    }
                    assert(first_candidate(a, name) == first_candidate(b, name));
                    lemma_normalized_same(a, b, s.skip(n + 4));
                    assert forall|file: Seq<char>|
                        #![trigger reference_warnings(a, file, s)]
                        reference_warnings(a, file, s) == reference_warnings(b, file, s) by {
                        assert(reference_warnings(a, file, s.skip(n + 4)) == reference_warnings(
                            b,
                            file,
                            s.skip(n + 4),
                        ));
                    }
                }
            },
            None => {
                lemma_normalized_same(a, b, s.skip(1));
                assert forall|file: Seq<char>|
                    #![trigger reference_warnings(a, file, s)]
                    reference_warnings(a, file, s) == reference_warnings(b, file, s) by {
                    assert(reference_warnings(a, file, s.skip(1)) == reference_warnings(
                        b,
                        file,
                        s.skip(1),
                    ));
                }
            },
        }
    }
}

/// The pages depend only on the paths that are registered for short
/// references.
pub proof fn lemma_pages_same(
    set: SyntaxSet,
    base: Seq<char>,
    a: Table<Vec<String>>,
    b: Table<Vec<String>>,
    docs: Seq<MdFileView>,
)
    requires
        forall|k: Seq<char>|
            #![trigger a.list(k)]
            string_views(a.list(k)) == string_views(b.list(k)),
    ensures
        pages_of(set, base, a, docs) == pages_of(set, base, b, docs),
    decreases docs.len(),
{
    if docs.len() > 0 {
        lemma_pages_same(set, base, a, b, docs.drop_last());
        lemma_normalized_same(a, b, docs.last().raw);
        assert(reference_warnings(a, docs.last().path, docs.last().raw) == reference_warnings(
            b,
            docs.last().path,
            docs.last().raw,
        ));
    }
}

/// The links that were recorded when some of the pages were made are still
/// there, in their places, when all are made.
pub proof fn lemma_pages_keep_links(
    set: SyntaxSet,
    base: Seq<char>,
    sitemap: Table<Vec<String>>,
    docs: Seq<MdFileView>,
    n: int,
)
    requires
        0 <= n <= docs.len(),
        pages_of(set, base, sitemap, docs) is Ok,
    ensures
        pages_of(set, base, sitemap, docs.take(n)) is Ok,
        pages_of(set, base, sitemap, docs.take(n))->Ok_0.internal.len() <= pages_of(
            set,
            base,
            sitemap,
            docs,
        )->Ok_0.internal.len(),
        forall|k: int|
            0 <= k < pages_of(set, base, sitemap, docs.take(n))->Ok_0.internal.len() ==> pages_of(
                set,
                base,
                sitemap,
                docs,
            )->Ok_0.internal[k] == #[trigger] pages_of(
                set,
                base,
                sitemap,
                docs.take(n),
            )->Ok_0.internal[k],
    decreases docs.len() - n,
{
    if pages_of(set, base, sitemap, docs.take(n)) is Err {
        lemma_pages_stay_failed(set, base, sitemap, docs, n);
    }
    if n < docs.len() {
        lemma_pages_keep_links(set, base, sitemap, docs, n + 1);
        assert(docs.take(n + 1).drop_last() == docs.take(n));
        assert(docs.take(n + 1).last() == docs[n]);
        let before = pages_of(set, base, sitemap, docs.take(n))->Ok_0;
        let after = pages_of(set, base, sitemap, docs.take(n + 1))->Ok_0;
        let all = pages_of(set, base, sitemap, docs)->Ok_0;
        let doc = Origin { base, url: docs[n].full_url, title: docs[n].frontmatter.title };
        let start = crate::parser::scan_start(before.internal, before.external);
        let events = markdown_events(normalized(sitemap, docs[n].raw));
        assert(after.internal == scan_all(doc, start, events).internal);
        lemma_links_stay(doc, start, events, 0);
        assert(events.take(0) =~= Seq::<Event<'static>>::empty());
        assert(scan_all(doc, start, events.take(0)).internal == before.internal);
        assert forall|k: int| 0 <= k < before.internal.len() implies all.internal[k]
            == #[trigger] before.internal[k] by {
            assert(after.internal[k] == before.internal[k]);
        }
    } else {
        assert(docs.take(n) == docs);
    }
}

/// Backlinks mirror the links of a build. Where every page of `docs` was
/// made, and the document `docs[i]` opens a link into the site that leads to
/// the page of another document, `docs[j]`, and closes it, no other link
/// opened in between, the backlinks of `docs[j]` hold an entry that comes
/// from `docs[i]`.
pub proof fn law_backlinks_of_build(
    set: SyntaxSet,
    base: Seq<char>,
    sitemap: Table<Vec<String>>,
    docs: Seq<MdFileView>,
    i: int,
    j: int,
    opened: int,
    closed: int,
    url: Seq<char>,
    title: Seq<char>,
)
    requires
        pages_of(set, base, sitemap, docs) is Ok,
        0 <= i < docs.len(),
        0 <= j < docs.len(),
        docs[i].full_url != docs[j].full_url,
        0 <= opened < closed < markdown_events(normalized(sitemap, docs[i].raw)).len(),
        shape(markdown_events(normalized(sitemap, docs[i].raw))[opened]) == (Shape::LinkOpen {
            url,
            title,
        }),
        shape(markdown_events(normalized(sitemap, docs[i].raw))[closed]) == Shape::LinkClose,
        forall|k: int|
            opened < k < closed ==> !(shape(
                #[trigger] markdown_events(normalized(sitemap, docs[i].raw))[k],
            ) is LinkOpen),
        internal_link(url),
        link_url(base, url) == docs[j].full_url,
    ensures
        exists|k: int|
            0 <= k < backlinks_of(
                docs[j].full_url,
                pages_of(set, base, sitemap, docs)->Ok_0.internal,
            ).len() && (#[trigger] backlinks_of(
                docs[j].full_url,
                pages_of(set, base, sitemap, docs)->Ok_0.internal,
            )[k]).originating_file_url == Some(docs[i].full_url),
{
    lemma_pages_keep_links(set, base, sitemap, docs, i);
    lemma_pages_keep_links(set, base, sitemap, docs, i + 1);
    assert(docs.take(i + 1).drop_last() == docs.take(i));
    assert(docs.take(i + 1).last() == docs[i]);
    let before = pages_of(set, base, sitemap, docs.take(i))->Ok_0;
    let after = pages_of(set, base, sitemap, docs.take(i + 1))->Ok_0;
    let all = pages_of(set, base, sitemap, docs)->Ok_0;
    let doc = Origin { base, url: docs[i].full_url, title: docs[i].frontmatter.title };
    let start = crate::parser::scan_start(before.internal, before.external);
    let events = markdown_events(normalized(sitemap, docs[i].raw));
    assert(after.internal == scan_all(doc, start, events).internal);
    law_links_are_recorded(doc, start, events, opened, closed, url, title);
    let k = choose|k: int|
        0 <= k < after.internal.len() && (#[trigger] after.internal[k]).url == link_url(base, url)
            && after.internal[k].originating_file_url == Some(doc.url);
    assert(all.internal[k] == after.internal[k]);
    law_backlink_symmetry(all.internal, docs[j].full_url, docs[i].full_url, k);
}

/// Where no link is closed from the event `n` on, reading on records no
/// link.
pub proof fn lemma_no_close_no_links(doc: Origin, s: Scan, events: Seq<Event<'static>>, n: int)
    requires
        0 <= n <= events.len(),
        forall|k: int| n <= k < events.len() ==> !(shape(#[trigger] events[k]) is LinkClose),
    ensures
        scan_all(doc, s, events).internal == scan_all(doc, s, events.take(n)).internal,
    decreases events.len() - n,
{
    if n < events.len() {
        lemma_no_close_no_links(doc, s, events, n + 1);
        assert(events.take(n + 1).drop_last() == events.take(n));
        assert(events.take(n + 1).last() == events[n]);
    } else {
        assert(events.take(n) == events);
    }
}

/// One link between two documents gives one backlink. Where a site has two
/// documents, the first opens and closes one link, which leads into the site
/// to the page of the second, and the second closes no link, then after the
/// build the backlinks of the second are one entry, which comes from the
/// first, and the first has no backlinks.
pub proof fn law_one_link_one_backlink(
    set: SyntaxSet,
    base: Seq<char>,
    sitemap: Table<Vec<String>>,
    docs: Seq<MdFileView>,
    opened: int,
    closed: int,
    url: Seq<char>,
    title: Seq<char>,
)
    requires
        docs.len() == 2,
        pages_of(set, base, sitemap, docs) is Ok,
        docs[0].full_url != docs[1].full_url,
        0 <= opened < closed < markdown_events(normalized(sitemap, docs[0].raw)).len(),
        shape(markdown_events(normalized(sitemap, docs[0].raw))[opened]) == (Shape::LinkOpen {
            url,
            title,
        }),
        forall|k: int|
            0 <= k < markdown_events(normalized(sitemap, docs[0].raw)).len() && k != opened ==> !(shape(
                #[trigger] markdown_events(normalized(sitemap, docs[0].raw))[k],
            ) is LinkOpen),
        forall|k: int|
            0 <= k < markdown_events(normalized(sitemap, docs[0].raw)).len() ==> (shape(
                #[trigger] markdown_events(normalized(sitemap, docs[0].raw))[k],
            ) is LinkClose <==> k == closed),
        forall|k: int|
            0 <= k < markdown_events(normalized(sitemap, docs[1].raw)).len() ==> !(shape(
                #[trigger] markdown_events(normalized(sitemap, docs[1].raw))[k],
            ) is LinkClose),
        internal_link(url),
        link_url(base, url) == docs[1].full_url,
    ensures
        ({
            let links = pages_of(set, base, sitemap, docs)->Ok_0.internal;
            &&& backlinks_of(docs[1].full_url, links).len() == 1
            &&& backlinks_of(docs[1].full_url, links)[0].originating_file_url == Some(
                docs[0].full_url,
            )
            &&& backlinks_of(docs[0].full_url, links).len() == 0
        }),
{
    lemma_pages_keep_links(set, base, sitemap, docs, 1);
    assert(docs.take(2) == docs);
    assert(docs.drop_last() == docs.take(1));
    assert(docs.take(1).drop_last() =~= Seq::<MdFileView>::empty());
    assert(docs.take(1).last() == docs[0]);
    let none = Seq::<LinkView>::empty();
    let first = pages_of(set, base, sitemap, docs.take(1))->Ok_0;
    let all = pages_of(set, base, sitemap, docs)->Ok_0;
    let a = Origin { base, url: docs[0].full_url, title: docs[0].frontmatter.title };
    let b = Origin { base, url: docs[1].full_url, title: docs[1].frontmatter.title };
    let a_events = markdown_events(normalized(sitemap, docs[0].raw));
    let b_events = markdown_events(normalized(sitemap, docs[1].raw));
    let a_start = crate::parser::scan_start(none, none);
    let zero = pages_of(set, base, sitemap, docs.take(1).drop_last());
    assert(zero is Ok && zero->Ok_0.internal =~= none && zero->Ok_0.external =~= none);
    assert(read_document(base, sitemap, docs[0], none, none) == scan_all(a, a_start, a_events));
    assert(first.internal == scan_all(a, a_start, a_events).internal);
    // Up to the closing event nothing is recorded.
    let upto = a_events.take(closed);
    assert forall|k: int| 0 <= k < upto.len() implies !(shape(#[trigger] upto[k]) is LinkClose) by {
        assert(upto[k] == a_events[k]);
    }
    lemma_no_close_no_links(a, a_start, upto, 0);
    assert(upto.take(0) =~= Seq::<Event<'static>>::empty());
    let before = scan_all(a, a_start, upto);
    assert(before.internal =~= none);
    // The closing event records the link that was opened.
    lemma_link_is_kept(a, a_start, a_events, opened, closed, url, title);
    assert(a_events.take(closed + 1).drop_last() == upto);
    assert(a_events.take(closed + 1).last() == a_events[closed]);
    let after = scan_all(a, a_start, a_events.take(closed + 1));
    assert(after.internal == none.push(before.link));
    // Behind it nothing is recorded, in either document.
    lemma_no_close_no_links(a, a_start, a_events, closed + 1);
    assert(first.internal == seq![before.link]);
    let b_start = crate::parser::scan_start(first.internal, first.external);
    assert(all.internal == scan_all(b, b_start, b_events).internal);
    lemma_no_close_no_links(b, b_start, b_events, 0);
    assert(b_events.take(0) =~= Seq::<Event<'static>>::empty());
    assert(all.internal == seq![before.link]);
    let links = all.internal;
    assert(links.drop_last() =~= none);
    assert(backlinks_of(docs[1].full_url, none).len() == 0);
    assert(backlinks_of(docs[0].full_url, none).len() == 0);
    assert(leads_back(docs[1].full_url, before.link));
    assert(!has_origin(backlinks_of(docs[1].full_url, none), before.link));
    assert(!leads_back(docs[0].full_url, before.link));
}

/// A document that no other document links to has no backlinks.
pub proof fn law_no_links_no_backlinks(url: Seq<char>, links: Seq<LinkView>)
    requires
        forall|k: int| 0 <= k < links.len() ==> !leads_back(url, #[trigger] links[k]),
    ensures
        backlinks_of(url, links).len() == 0,
    decreases links.len(),
{
    if links.len() > 0 {
        assert forall|k: int| 0 <= k < links.drop_last().len() implies !leads_back(
            url,
            #[trigger] links.drop_last()[k],
        ) by {
            assert(links.drop_last()[k] == links[k]);
        }
        law_no_links_no_backlinks(url, links.drop_last());
        assert(!leads_back(url, links[links.len() - 1]));
    }
}

/// Each document is among the backlinks of another at most once: no two
/// backlinks come from the same document.
pub proof fn law_backlinks_name_each_origin_once(url: Seq<char>, links: Seq<LinkView>)
    ensures
        forall|a: int, b: int|
            0 <= a < b < backlinks_of(url, links).len() ==> !same_origin(
                #[trigger] backlinks_of(url, links)[a],
                #[trigger] backlinks_of(url, links)[b],
            ),
    decreases links.len(),
{
    if links.len() > 0 {
        law_backlinks_name_each_origin_once(url, links.drop_last());
        let before = backlinks_of(url, links.drop_last());
        let found = backlinks_of(url, links);
        assert forall|a: int, b: int| 0 <= a < b < found.len() implies !same_origin(
            #[trigger] found[a],
            #[trigger] found[b],
        ) by {
            if b < before.len() {
                assert(found[a] == before[a]);
                assert(found[b] == before[b]);
            } else {
                assert(found == before.push(links.last()));
                assert(found[a] == before[a]);
                assert(!has_origin(before, links.last()));
            }
        }
    }
}

/// The documents of the sources depend on the directories and the
/// settings of the site alone.
pub proof fn lemma_documents_same(a: Site, b: Site, sources: Seq<SourceFile>)
    requires
        a.dir == b.dir,
        a.dir_esker_site == b.dir_esker_site,
        a.config == b.config,
    ensures
        documents_of(a, sources) == documents_of(b, sources),
        invalid_of(a, sources) == invalid_of(b, sources),
        forall|field: DateField|
            #![trigger date_errors_of(a, sources, field)]
            date_errors_of(a, sources, field) == date_errors_of(b, sources, field),
    decreases sources.len(),
{
    if sources.len() > 0 {
        lemma_documents_same(a, b, sources.drop_last());
        let s = sources.last();
        assert(valid(a, s) == valid(b, s));
        assert(published(a, s) == published(b, s));
        assert(new_document(a, s) == new_document(b, s));
        assert forall|field: DateField|
            #![trigger date_errors_of(a, sources, field)]
            date_errors_of(a, sources, field) == date_errors_of(b, sources, field) by {
            assert(date_errors_of(a, sources.drop_last(), field) == date_errors_of(
                b,
                sources.drop_last(),
                field,
            ));
        }
    }
}

/// The documents related to one depend only on the lists of its tags.
pub proof fn lemma_related_same(
    url: Seq<char>,
    tags: Seq<Seq<char>>,
    a: Table<Vec<Link>>,
    b: Table<Vec<Link>>,
)
    requires
        forall|tag: Seq<char>| #![trigger a.list(tag)] link_views(a.list(tag)) == link_views(b.list(tag)),
    ensures
        related_of(url, tags, a) == related_of(url, tags, b),
    decreases tags.len(),
{
    if tags.len() > 0 {
        lemma_related_same(url, tags.drop_last(), a, b);
        assert(link_views(a.list(tags.last())) == link_views(b.list(tags.last())));
        assert(tagged(a, tags.last()) == tagged(b, tags.last()));
    }
}

/// Building is idempotent. Two builds of the same sources with the same
/// syntaxes, each from a site with the same directories and settings (as a
/// build and the rebuild that follows it are), end with the same documents:
/// page for page the same HTML, the same table of contents, backlinks and
/// related documents. They also end with the same links, the same sitemap,
/// the same list for every tag, and the same warnings and errors; nothing is
/// left over from the first build and nothing is there twice.
pub proof fn law_build_idempotent(
    set: SyntaxSet,
    sources: Seq<SourceFile>,
    first_start: Site,
    first: Site,
    second_start: Site,
    second: Site,
)
    requires
        built(first, first_start, sources, set),
        built(second, second_start, sources, set),
        second_start.dir == first_start.dir,
        second_start.dir_esker_site == first_start.dir_esker_site,
        second_start.config == first_start.config,
    ensures
        forall|parents: Seq<char>|
            #![trigger first.markdown_files.list(parents)]
            #![trigger second.markdown_files.list(parents)]
            doc_views(first.markdown_files.list(parents)) == doc_views(
                second.markdown_files.list(parents),
            ),
        link_views(first.links.internal@) == link_views(second.links.internal@),
        link_views(first.links.external@) == link_views(second.links.external@),
        link_views(first.template_sitemap@) == link_views(second.template_sitemap@),
        forall|tag: Seq<char>|
            #![trigger first.tags.list(tag)]
            #![trigger second.tags.list(tag)]
            link_views(first.tags.list(tag)) == link_views(second.tags.list(tag)),
        warning_views(first.errors.warnings@) == warning_views(second.errors.warnings@),
        string_views(first.errors.invalid_date_created@) == string_views(
            second.errors.invalid_date_created@,
        ),
        string_views(first.errors.invalid_date_updated@) == string_views(
            second.errors.invalid_date_updated@,
        ),
        string_views(first.invalid_files@) == string_views(second.invalid_files@),
{
    lemma_documents_same(first_start, second_start, sources);
    let docs = documents_of(first_start, sources);
    assert(docs == documents_of(second_start, sources));
    assert(date_errors_of(first_start, sources, DateField::Created) == date_errors_of(
        second_start,
        sources,
        DateField::Created,
    ));
    assert(date_errors_of(first_start, sources, DateField::Updated) == date_errors_of(
        second_start,
        sources,
        DateField::Updated,
    ));
    assert forall|k: Seq<char>|
        #![trigger first.flat_sitemap.list(k)]
        string_views(first.flat_sitemap.list(k)) == string_views(second.flat_sitemap.list(k)) by {
        assert(string_views(first.flat_sitemap.list(k)) == candidates_of(docs, k));
        assert(string_views(second.flat_sitemap.list(k)) == candidates_of(docs, k));
    }
    assert(first.config == second.config);
    lemma_pages_same(set, first.config.url@, first.flat_sitemap, second.flat_sitemap, docs);
    let p = pages_of(set, first.config.url@, first.flat_sitemap, docs)->Ok_0;
    assert forall|tag: Seq<char>|
        #![trigger first.tags.list(tag)]
        link_views(first.tags.list(tag)) == link_views(second.tags.list(tag)) by {
        assert(link_views(first.tags.list(tag)) == tag_list_of(docs, tag));
        assert(link_views(second.tags.list(tag)) == tag_list_of(docs, tag));
    }
    assert(all_finished(p.internal, first.tags, p.docs) =~= all_finished(
        p.internal,
        second.tags,
        p.docs,
    )) by {
        assert forall|i: int| 0 <= i < p.docs.len() implies finished(
            p.internal,
            first.tags,
            #[trigger] p.docs[i],
        ) == finished(p.internal, second.tags, p.docs[i]) by {
            lemma_related_same(
                p.docs[i].full_url,
                p.docs[i].frontmatter.tags,
                first.tags,
                second.tags,
            );
        }
    }
    assert forall|parents: Seq<char>|
        #![trigger first.markdown_files.list(parents)]
        #![trigger second.markdown_files.list(parents)]
        doc_views(first.markdown_files.list(parents)) == doc_views(
            second.markdown_files.list(parents),
        ) by {
        assert(doc_views(first.markdown_files.list(parents)) == crate::scan::group_of(
            all_finished(p.internal, first.tags, p.docs),
            parents,
        ));
        assert(doc_views(second.markdown_files.list(parents)) == crate::scan::group_of(
            all_finished(p.internal, second.tags, p.docs),
            parents,
        ));
    }
}

/// A rebuild repeats the build. Where a site holds a finished build and is
/// cleared for a rebuild, the rebuild of the same sources ends with the same
/// documents, links, sitemap, tags, warnings and errors as the build did.
pub proof fn law_rebuild_repeats_build(
    set: SyntaxSet,
    sources: Seq<SourceFile>,
    start: Site,
    first: Site,
    again: Site,
    second: Site,
)
    requires
        built(first, start, sources, set),
        again.same_but_index((Site { state: again.state, ..first })),
        built(second, again, sources, set),
    ensures
        forall|parents: Seq<char>|
            #![trigger first.markdown_files.list(parents)]
            #![trigger second.markdown_files.list(parents)]
            doc_views(first.markdown_files.list(parents)) == doc_views(
                second.markdown_files.list(parents),
            ),
        link_views(first.links.internal@) == link_views(second.links.internal@),
        link_views(first.links.external@) == link_views(second.links.external@),
        link_views(first.template_sitemap@) == link_views(second.template_sitemap@),
        forall|tag: Seq<char>|
            #![trigger first.tags.list(tag)]
            #![trigger second.tags.list(tag)]
            link_views(first.tags.list(tag)) == link_views(second.tags.list(tag)),
        warning_views(first.errors.warnings@) == warning_views(second.errors.warnings@),
{
    law_build_idempotent(set, sources, start, first, again, second);
}

/// A changed document has the documents read again and nothing else done.
/// The change asks for the index to be cleared and every document to be read
/// and written again; nothing that was written is taken away, and no
/// attachment, public file or style sheet is touched.
pub proof fn law_document_change_keeps_assets(site: Site, kind: ChangeKind, path: Seq<char>)
    requires
        kind != ChangeKind::Other,
        markdown(path),
        !template_or_config(site, path),
    ensures
        wanted(site, kind, path) == Some(Rebuild::Markdown),
        steps_of(Rebuild::Markdown) == markdown_rebuild(),
        markdown_rebuild()[0] == BuildStep::ClearIndex,
        markdown_rebuild()[1] == BuildStep::LoadFiles,
        !markdown_rebuild().contains(BuildStep::RemoveOutput),
        !markdown_rebuild().contains(BuildStep::CopyData),
        !markdown_rebuild().contains(BuildStep::CopyPublic),
        !markdown_rebuild().contains(BuildStep::CreateThemeCss),
        !markdown_rebuild().contains(BuildStep::CreateDirectories),
{
}

/// A changed template or changed settings have the site built from nothing.
/// All that was written is taken away and the index cleared before any
/// document is read, and then every document is read and written again,
/// whether it changed or not.
pub proof fn law_template_change_rebuilds_all(site: Site, kind: ChangeKind, path: Seq<char>)
    requires
        kind != ChangeKind::Other,
        template_or_config(site, path),
    ensures
        wanted(site, kind, path) == Some(Rebuild::Full),
        steps_of(Rebuild::Full) == full_rebuild(),
        full_rebuild()[1] == BuildStep::RemoveOutput,
        full_rebuild()[2] == BuildStep::ClearIndex,
        full_rebuild()[5] == BuildStep::LoadFiles,
        forall|k: int|
            0 <= k < full_rebuild().len() && full_rebuild()[k] == BuildStep::LoadFiles ==> k > 2,
{
}

/// A build can be repeated. Two first passes over the same sources from the
/// same start give the same pages, the same links and the same tables of
/// contents, or the same error.
pub proof fn law_idempotence(
    set: SyntaxSet,
    start: Site,
    sources: Seq<SourceFile>,
    first: Site,
    second: Site,
)
    requires
        scanned(first, start, sources),
        scanned(second, start, sources),
    ensures
        pages_of(set, first.config.url@, first.flat_sitemap, documents_of(start, sources))
            == pages_of(
            set,
            second.config.url@,
            second.flat_sitemap,
            documents_of(start, sources),
        ),
{
    let docs = documents_of(start, sources);
    assert forall|k: Seq<char>|
        #![trigger first.flat_sitemap.list(k)]
        string_views(first.flat_sitemap.list(k)) == string_views(second.flat_sitemap.list(k)) by {
        assert(string_views(first.flat_sitemap.list(k)) == candidates_of(docs, k));
        assert(string_views(second.flat_sitemap.list(k)) == candidates_of(docs, k));
    }
    lemma_pages_same(set, first.config.url@, first.flat_sitemap, second.flat_sitemap, docs);
}

} // verus!
