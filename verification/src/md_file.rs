//! A document: one markdown file and what the build derives from it.

use vstd::prelude::*;
use crate::errors::{warning_views, Warning, WarningView};
use crate::frontmatter::{fence, Frontmatter, FrontmatterView};
use crate::link::{link_views, Link, LinkView};
use crate::parser;
use crate::parser::syntax_highlight::HighlightError;
use crate::parser::{links_start, origin_of, page_of, scan_all, toc_of};
use crate::markdown::markdown_events;
use crate::path::{
    chars_eq, file_stem, join_paths, path_file_stem, path_join, path_with_extension,
    with_extension,
};
use crate::index::first_candidate;
use crate::site::{with_baseurl, Site};
use crate::slug::{slug_of, slugify};
use crate::table::Table;
use crate::text::{
    chars_of, join, join_with, lines_in, lines_of, opt_view, push_all, slice_of, str_eq,
    string_of, string_views, views,
};
use crate::util::{dir_below, is_below, strip_pwd};
use syntect::parsing::SyntaxSet;

verus! {

/// One markdown file of the site.
#[derive(Debug)]
pub struct MdFile {
    /// The text of the document, without its frontmatter.
    pub raw: String,
    /// The page made of the text; empty until the document was transformed.
    pub html: String,
    /// Where the file lies.
    pub path: String,
    /// The directory of the page, seen from the site.
    pub web_path_parents: String,
    /// The file name of the page.
    pub web_path: String,
    /// Where the page is written.
    pub out_path: String,
    pub frontmatter: Frontmatter,
    pub file_name_without_extension: String,
    /// The address of the page.
    pub full_url: String,
    /// Whether the document lists the others of its directory.
    pub is_section: bool,
    pub backlinks: Vec<Link>,
    pub toc: Vec<Link>,
    pub related_files: Vec<Link>,
}

/// The mathematical value of an [`MdFile`].
pub struct MdFileView {
    pub raw: Seq<char>,
    pub html: Seq<char>,
    pub path: Seq<char>,
    pub web_path_parents: Seq<char>,
    pub web_path: Seq<char>,
    pub out_path: Seq<char>,
    pub frontmatter: FrontmatterView,
    /// The date of creation, in full.
    pub created_text: Seq<char>,
    pub file_name_without_extension: Seq<char>,
    pub full_url: Seq<char>,
    pub is_section: bool,
    pub backlinks: Seq<LinkView>,
    pub toc: Seq<LinkView>,
    pub related_files: Seq<LinkView>,
}

impl View for MdFile {
    type V = MdFileView;

    open spec fn view(&self) -> MdFileView {
        MdFileView {
            raw: self.raw@,
            html: self.html@,
            path: self.path@,
            web_path_parents: self.web_path_parents@,
            web_path: self.web_path@,
            out_path: self.out_path@,
            frontmatter: self.frontmatter@,
            created_text: self.frontmatter.date_created.text@,
            file_name_without_extension: self.file_name_without_extension@,
            full_url: self.full_url@,
            is_section: self.is_section,
            backlinks: link_views(self.backlinks@),
            toc: link_views(self.toc@),
            related_files: link_views(self.related_files@),
        }
    }
}

/// The views of a list of documents.
pub open spec fn doc_views(docs: Seq<MdFile>) -> Seq<MdFileView> {
    docs.map_values(|d: MdFile| d@)
}

/// The lines behind the first fence among `lines`; none where no line is
/// the fence.
pub open spec fn after_fence(lines: Seq<Seq<char>>) -> Seq<Seq<char>>
    decreases lines.len(),
{
    if lines.len() == 0 {
        Seq::empty()
    } else if lines[0] == fence() {
        lines.skip(1)
    } else {
        after_fence(lines.skip(1))
    }
}

/// The lines of a document that are no frontmatter. Frontmatter is the one
/// block at the start: where the first line is the fence, the body is all
/// that stands behind the next fence, later fences among it. A document that
/// does not start with the fence is all body.
pub open spec fn body_lines(lines: Seq<Seq<char>>) -> Seq<Seq<char>> {
    if lines.len() > 0 && lines[0] == fence() {
        after_fence(lines.skip(1))
    } else {
        lines
    }
}

/// The text of a document without its frontmatter.
pub open spec fn body_text(content: Seq<char>) -> Seq<char> {
    join_with(body_lines(lines_in(content)), "\n"@)
}

/// The file name of the page of a document: the slug of the stem of its
/// file, with the extension of a page.
pub open spec fn page_name(path: Seq<char>) -> Seq<char> {
    with_extension(slug_of(file_stem(path)->0), "html"@)
}

/// The path of the page of a document, seen from the site.
pub open spec fn page_path(dir: Seq<char>, path: Seq<char>) -> Seq<char> {
    join_paths(dir_below(dir, path), page_name(path))
}

/// The address of the page of a document.
pub open spec fn page_url(base: Seq<char>, dir: Seq<char>, path: Seq<char>) -> Seq<char> {
    with_baseurl(base, page_path(dir, path))
}

/// A character that a short reference may hold: any but the two brackets
/// and the colon.
pub open spec fn name_char(c: char) -> bool {
    c != ']' && c != '[' && c != ':'
}

/// How many characters at the start of `s` may stand in a short reference.
pub open spec fn name_run(s: Seq<char>) -> int
    decreases s.len(),
{
    if s.len() > 0 && name_char(s[0]) {
        1 + name_run(s.skip(1))
    } else {
        0
    }
}

/// The length of the name where `s` starts with a short reference: two
/// opening brackets, a name of at least one character, two closing brackets.
pub open spec fn wikilink_at(s: Seq<char>) -> Option<int> {
    if s.len() >= 2 && s[0] == '[' && s[1] == '[' {
        let n = name_run(s.skip(2));
        if n >= 1 && s.len() >= n + 4 && s[n + 2] == ']' && s[n + 3] == ']' {
            Some(n)
        } else {
            None
        }
    } else {
        None
    }
}

/// What a short reference means: the path that was registered first under
/// its name, else the name itself.
pub open spec fn resolved(sitemap: Table<Vec<String>>, name: Seq<char>) -> Seq<char> {
    match first_candidate(sitemap, name) {
        Some(path) => path,
        None => name,
    }
}

/// The markdown link that stands for a short reference.
pub open spec fn markdown_link(name: Seq<char>, target: Seq<char>) -> Seq<char> {
    seq!['['] + name + "]("@ + target + ".md)"@
}

/// A text with its short references written as markdown links, from the
/// left and without overlap.
pub open spec fn normalized(sitemap: Table<Vec<String>>, s: Seq<char>) -> Seq<char>
    decreases s.len(),
{
    if s.len() == 0 {
        s
    } else {
        match wikilink_at(s) {
            Some(n) => if 0 < n && n + 4 <= s.len() {
                markdown_link(s.subrange(2, n + 2), resolved(sitemap, s.subrange(2, n + 2)))
                    + normalized(sitemap, s.skip(n + 4))
            } else {
                s
            },
            None => seq![s[0]] + normalized(sitemap, s.skip(1)),
        }
    }
}

/// What is to be said of a short reference to `name` in `file`: nothing
/// where the name means one document, a warning where it means none or more
/// than one.
pub open spec fn warning_of(sitemap: Table<Vec<String>>, file: Seq<char>, name: Seq<char>) -> Seq<
    WarningView,
> {
    let candidates = sitemap.list(name).len();
    if candidates == 1 {
        Seq::empty()
    } else {
        seq![WarningView { file, reference: name, ambiguous: candidates > 1 }]
    }
}

/// The warnings that the short references of a text give, in their order.
pub open spec fn reference_warnings(sitemap: Table<Vec<String>>, file: Seq<char>, s: Seq<char>) -> Seq<
    WarningView,
>
    decreases s.len(),
{
    if s.len() == 0 {
        Seq::empty()
    } else {
        match wikilink_at(s) {
            Some(n) => if 0 < n && n + 4 <= s.len() {
                warning_of(sitemap, file, s.subrange(2, n + 2)) + reference_warnings(
                    sitemap,
                    file,
                    s.skip(n + 4),
                )
            } else {
                Seq::empty()
            },
            None => reference_warnings(sitemap, file, s.skip(1)),
        }
    }
}

/// Two links come from the same document.
pub open spec fn same_origin(a: LinkView, b: LinkView) -> bool {
    a.originating_file_url == b.originating_file_url && a.originating_file_title
        == b.originating_file_title
}

/// Whether `list` holds a link from the document that `l` comes from.
pub open spec fn has_origin(list: Seq<LinkView>, l: LinkView) -> bool {
    exists|i: int| 0 <= i < list.len() && same_origin(#[trigger] list[i], l)
}

/// Whether a link counts as a backlink of the document at `url`: it leads
/// there, and it comes from a document that is known and is another one.
pub open spec fn leads_back(url: Seq<char>, l: LinkView) -> bool {
    l.originating_file_url is Some && l.url == url && l.originating_file_url != Some(url)
}

/// The backlinks of the document at `url`: the links into the site that lead
/// to it from other documents, one for each document they come from.
pub open spec fn backlinks_of(url: Seq<char>, links: Seq<LinkView>) -> Seq<LinkView>
    decreases links.len(),
{
    if links.len() == 0 {
        Seq::empty()
    } else {
        let before = backlinks_of(url, links.drop_last());
        if leads_back(url, links.last()) && !has_origin(before, links.last()) {
            before.push(links.last())
        } else {
            before
        }
    }
}

/// Whether `list` holds a link to `url`.
pub open spec fn has_url(list: Seq<LinkView>, url: Seq<char>) -> bool {
    exists|i: int| 0 <= i < list.len() && (#[trigger] list[i]).url == url
}

/// `found` with the entries of one tag added: those of other documents than
/// the one at `url`, each document once.
pub open spec fn with_tagged(found: Seq<LinkView>, url: Seq<char>, entries: Seq<LinkView>) -> Seq<
    LinkView,
>
    decreases entries.len(),
{
    if entries.len() == 0 {
        found
    } else {
        let before = with_tagged(found, url, entries.drop_last());
        if entries.last().url != url && !has_url(before, entries.last().url) {
            before.push(entries.last())
        } else {
            before
        }
    }
}

/// The entries of a tag in the table of the site.
pub open spec fn tagged(table: Table<Vec<Link>>, tag: Seq<char>) -> Seq<LinkView> {
    link_views(table.list(tag))
}

/// The documents related to the one at `url`: those that carry one of its
/// tags, each once, the document itself not among them.
pub open spec fn related_of(url: Seq<char>, tags: Seq<Seq<char>>, table: Table<Vec<Link>>) -> Seq<
    LinkView,
>
    decreases tags.len(),
{
    if tags.len() == 0 {
        Seq::empty()
    } else {
        with_tagged(related_of(url, tags.drop_last(), table), url, tagged(table, tags.last()))
    }
}

/// Whether two optional strings hold the same.
pub fn opt_eq(a: &Option<String>, b: &Option<String>) -> (r: bool)
    ensures
        r == (opt_view(*a) == opt_view(*b)),
{
    match a {
        Some(x) => match b {
            Some(y) => str_eq(x.as_str(), y.as_str()),
            None => false,
        },
        None => match b {
            Some(_) => false,
            None => true,
        },
    }
}

/// Whether `list` holds a link from the document that `l` comes from.
pub fn holds_origin(list: &Vec<Link>, l: &Link) -> (r: bool)
    ensures
        r == has_origin(link_views(list@), l@),
{
    let mut i: usize = 0;
    while i < list.len()
        invariant
            i <= list.len(),
            forall|j: int| 0 <= j < i ==> !same_origin(#[trigger] link_views(list@)[j], l@),
        decreases list.len() - i,
    {
        if opt_eq(&list[i].originating_file_url, &l.originating_file_url) && opt_eq(
            &list[i].originating_file_title,
            &l.originating_file_title,
        ) {
            assert(same_origin(link_views(list@)[i as int], l@));
            return true;
        }
        i += 1;
    }
    false
}

/// Whether `list` holds a link to `url`.
pub fn holds_url(list: &Vec<Link>, url: &str) -> (r: bool)
    ensures
        r == has_url(link_views(list@), url@),
{
    let mut i: usize = 0;
    while i < list.len()
        invariant
            i <= list.len(),
            forall|j: int| 0 <= j < i ==> (#[trigger] link_views(list@)[j]).url != url@,
        decreases list.len() - i,
    {
        if str_eq(list[i].url.as_str(), url) {
            assert(link_views(list@)[i as int].url == url@);
            return true;
        }
        i += 1;
    }
    false
}

/// The text of a document without its frontmatter.
pub fn strip_frontmatter(content: &str) -> (r: String)
    ensures
        r@ == body_text(content@),
{
    let text = chars_of(content);
    let lines = lines_of(&text);
    let marker = chars_of("---");
    let newline = chars_of("\n");
    let ghost all = lines_in(content@);
    if lines.len() == 0 {
        assert(views(lines@) =~= all);
        return string_of(&join(&lines, &newline));
    }
    assert(all[0] == lines@[0]@);
    if !chars_eq(&lines[0], &marker) {
        return string_of(&join(&lines, &newline));
    }
    let ghost rest = all.skip(1);
    let mut i: usize = 1;
    assert(rest.skip(0) == rest);
    while i < lines.len() && !chars_eq(&lines[i], &marker)
        invariant
            1 <= i <= lines.len(),
            views(lines@) == all,
            rest == all.skip(1),
            marker@ == fence(),
            after_fence(rest) == after_fence(rest.skip(i - 1)),
        decreases lines.len() - i,
    {
        proof {
            assert(all[i as int] == lines@[i as int]@);
            assert(rest.skip(i - 1)[0] == all[i as int]);
            assert(rest.skip(i - 1).skip(1) == rest.skip(i as int));
        }
        i += 1;
    }
    let start: usize = if i < lines.len() {
        i + 1
    } else {
        i
    };
    proof {
        if i < lines.len() {
            assert(all[i as int] == lines@[i as int]@);
            assert(rest.skip(i - 1)[0] == all[i as int]);
            assert(rest.skip(i - 1).skip(1) == all.skip(i + 1));
        } else {
            assert(rest.skip(i - 1).len() == 0);
        }
        assert(body_lines(all) =~= all.skip(start as int));
    }
    let mut body: Vec<Vec<char>> = Vec::new();
    let mut k: usize = start;
    assert(views(body@) =~= all.subrange(start as int, k as int));
    while k < lines.len()
        invariant
            start <= k <= lines.len(),
            views(lines@) == all,
            views(body@) == all.subrange(start as int, k as int),
        decreases lines.len() - k,
    {
        let line = lines[k].clone();
        proof {
            assert(all[k as int] == lines@[k as int]@);
            assert(views(body@.push(line)) == views(body@).push(line@));
            assert(all.subrange(start as int, k + 1) == all.subrange(start as int, k as int).push(
                all[k as int],
            ));
        }
        body.push(line);
        k += 1;
    }
    assert(all.subrange(start as int, all.len() as int) == all.skip(start as int));
    string_of(&join(&body, &newline))
}

impl MdFile {
    /// Everything but the table of contents is as in `other`.
    pub open spec fn same_but_toc(&self, other: MdFile) -> bool {
        &&& self.raw == other.raw
        &&& self.html == other.html
        &&& self.path == other.path
        &&& self.web_path_parents == other.web_path_parents
        &&& self.web_path == other.web_path
        &&& self.out_path == other.out_path
        &&& self.frontmatter == other.frontmatter
        &&& self.file_name_without_extension == other.file_name_without_extension
        &&& self.full_url == other.full_url
        &&& self.is_section == other.is_section
        &&& self.backlinks == other.backlinks
        &&& self.related_files == other.related_files
    }

    /// Who the document is and where its page goes is as in `other`.
    pub open spec fn same_identity(&self, other: MdFile) -> bool {
        &&& self.path == other.path
        &&& self.web_path_parents == other.web_path_parents
        &&& self.web_path == other.web_path
        &&& self.out_path == other.out_path
        &&& self.frontmatter == other.frontmatter
        &&& self.file_name_without_extension == other.file_name_without_extension
        &&& self.full_url == other.full_url
        &&& self.is_section == other.is_section
    }

    /// The document of the file at `path` with the text `raw_str` and the
    /// frontmatter `fm`. Where its page goes and under which address it will
    /// be found follows from the path and from the site alone.
    pub fn new(site: &Site, raw_str: String, path: String, fm: Frontmatter) -> (r: MdFile)
        requires
            is_below(site.dir@, path@),
            file_stem(path@) is Some,
        ensures
            r.raw@ == body_text(raw_str@),
            r.html@.len() == 0,
            r.path@ == path@,
            r.web_path_parents@ == dir_below(site.dir@, path@),
            r.web_path@ == page_name(path@),
            r.out_path@ == join_paths(site.dir_esker_site@, page_path(site.dir@, path@)),
            r.frontmatter == fm,
            r.file_name_without_extension@ == file_stem(path@)->0,
            r.full_url@ == page_url(site.config.url@, site.dir@, path@),
            r.is_section == (file_stem(path@)->0 == "_index"@),
            r.backlinks@.len() == 0,
            r.toc@.len() == 0,
            r.related_files@.len() == 0,
    {
        let web_path_parents = strip_pwd(site.dir.as_str(), path.as_str());
        let filename = match path_file_stem(&chars_of(path.as_str())) {
            Some(stem) => stem,
            None => Vec::new(),
        };
        let slug = slugify(string_of(&filename).as_str());
        let web_path_stem = path_with_extension(&chars_of(slug.as_str()), &chars_of("html"));
        let url_path = path_join(&chars_of(web_path_parents.as_str()), &web_path_stem);
        let out_path = path_join(&chars_of(site.dir_esker_site.as_str()), &url_path);
        let full_url = site.build_with_baseurl(string_of(&url_path));
        let is_section = chars_eq(&filename, &chars_of("_index"));
        MdFile {
            raw: strip_frontmatter(raw_str.as_str()),
            html: String::new(),
            path,
            web_path_parents,
            web_path: string_of(&web_path_stem),
            out_path: string_of(&out_path),
            frontmatter: fm,
            file_name_without_extension: string_of(&filename),
            full_url,
            is_section,
            backlinks: Vec::new(),
            toc: Vec::new(),
            related_files: Vec::new(),
        }
    }

    /// Makes the page of the document. Its short references are resolved
    /// first, and those that name no document or more than one are recorded
    /// as warnings; then its links are recorded with the site, its headings
    /// with the document, and the page is written. Where a code block cannot
    /// be highlighted the page stays as it was.
    pub fn parse_markdown_to_html(&mut self, site: &mut Site, set: &SyntaxSet) -> (r: Result<
        (),
        HighlightError,
    >)
        requires
            old(site).wf(),
        ensures
            ({
                let raw = normalized(old(site).flat_sitemap, old(self).raw@);
                let read = scan_all(
                    origin_of(*old(site), *old(self)),
                    links_start(*old(site)),
                    markdown_events(raw),
                );
                &&& final(self).raw@ == raw
                &&& match r {
                    Ok(()) => page_of(*set, read.out) == Ok::<Seq<char>, HighlightError>(
                        final(self).html@,
                    ),
                    Err(e) => page_of(*set, read.out) == Err::<Seq<char>, HighlightError>(e)
                        && final(self).html == old(self).html,
                }
                &&& link_views(final(site).links.internal@) == read.internal
                &&& link_views(final(site).links.external@) == read.external
                &&& link_views(final(self).toc@) == link_views(old(self).toc@) + toc_of(
                    *set,
                    old(self).full_url@,
                    read.out,
                )
            }),
            warning_views(final(site).errors.warnings@) == warning_views(
                old(site).errors.warnings@,
            ) + reference_warnings(old(site).flat_sitemap, old(self).path@, old(self).raw@),
            final(site).errors.invalid_date_created == old(site).errors.invalid_date_created,
            final(site).errors.invalid_date_updated == old(site).errors.invalid_date_updated,
            final(site).same_but_links_and_errors(*old(site)),
            final(self).same_identity(*old(self)),
            final(self).backlinks == old(self).backlinks,
            final(self).related_files == old(self).related_files,
    {
        self.preprocess(site);
        let parsed_str = parser::new(self, site, set)?;
        self.html = parsed_str;
        Ok(())
    }

    /// Writes the short references of the document as markdown links, and
    /// records a warning for each that names no document or more than one.
    pub fn preprocess(&mut self, site: &mut Site)
        requires
            old(site).wf(),
        ensures
            final(self).raw@ == normalized(old(site).flat_sitemap, old(self).raw@),
            warning_views(final(site).errors.warnings@) == warning_views(
                old(site).errors.warnings@,
            ) + reference_warnings(old(site).flat_sitemap, old(self).path@, old(self).raw@),
            final(site).errors.invalid_date_created == old(site).errors.invalid_date_created,
            final(site).errors.invalid_date_updated == old(site).errors.invalid_date_updated,
            final(site).same_but_errors(*old(site)),
            final(self).same_identity(*old(self)),
            final(self).html == old(self).html,
            final(self).toc == old(self).toc,
            final(self).backlinks == old(self).backlinks,
            final(self).related_files == old(self).related_files,
    {
        let text = chars_of(self.raw.as_str());
        let processed = normalize_wikilinks(site, &text);
        let mut noted = note_references(site, self.path.as_str(), &text);
        proof {
            assert(warning_views(site.errors.warnings@ + noted@) =~= warning_views(
                site.errors.warnings@,
            ) + warning_views(noted@));
        }
        site.errors.warnings.append(&mut noted);
        self.raw = string_of(&processed);
    }

    /// Finds the documents that carry a tag of this one.
    pub fn get_related_files(&mut self, site: &Site)
        requires
            site.wf(),
        ensures
            link_views(final(self).related_files@) == related_of(
                old(self).full_url@,
                string_views(old(self).frontmatter.tags@),
                site.tags,
            ),
            final(self).same_identity(*old(self)),
            final(self).raw == old(self).raw,
            final(self).html == old(self).html,
            final(self).toc == old(self).toc,
            final(self).backlinks == old(self).backlinks,
    {
        let mut related_files: Vec<Link> = Vec::new();
        let ghost tags = string_views(self.frontmatter.tags@);
        let mut t: usize = 0;
        assert(link_views(related_files@) =~= Seq::<LinkView>::empty());
        while t < self.frontmatter.tags.len()
            invariant
                t <= self.frontmatter.tags.len(),
                site.wf(),
                tags == string_views(self.frontmatter.tags@),
                *self == *old(self),
                link_views(related_files@) == related_of(
                    self.full_url@,
                    tags.take(t as int),
                    site.tags,
                ),
            decreases self.frontmatter.tags.len() - t,
        {
            let tag = &self.frontmatter.tags[t];
            proof {
                assert(tags[t as int] == tag@);
                assert(tags.take(t + 1).drop_last() == tags.take(t as int));
                assert(tags.take(t + 1).last() == tag@);
            }
            match site.tags.find(tag.as_str()) {
                Some(at) => {
                    let entries = &site.tags.values[at];
                    let ghost found = link_views(related_files@);
                    let ghost all = link_views(entries@);
                    let mut i: usize = 0;
                    while i < entries.len()
                        invariant
                            i <= entries.len(),
                            all == link_views(entries@),
                            link_views(related_files@) == with_tagged(
                                found,
                                self.full_url@,
                                all.take(i as int),
                            ),
                        decreases entries.len() - i,
                    {
                        let tag_link = &entries[i];
                        proof {
                            assert(all[i as int] == tag_link@);
                            assert(all.take(i + 1).drop_last() == all.take(i as int));
                            assert(all.take(i + 1).last() == tag_link@);
                        }
                        if !str_eq(tag_link.url.as_str(), self.full_url.as_str()) && !holds_url(
                            &related_files,
                            tag_link.url.as_str(),
                        ) {
                            let copy = tag_link.clone();
                            assert(link_views(related_files@.push(copy)) == link_views(
                                related_files@,
                            ).push(copy@));
                            related_files.push(copy);
                        }
                        i += 1;
                    }
                    assert(all.take(all.len() as int) == all);
                },
                None => {},
            }
            t += 1;
        }
        assert(tags.take(tags.len() as int) == tags);
        self.related_files = related_files;
    }

    /// Finds the links that lead to this document from other documents.
    pub fn get_backlinks_for_file(&mut self, site: &Site)
        ensures
            link_views(final(self).backlinks@) == backlinks_of(
                old(self).full_url@,
                link_views(site.links.internal@),
            ),
            final(self).same_identity(*old(self)),
            final(self).raw == old(self).raw,
            final(self).html == old(self).html,
            final(self).toc == old(self).toc,
            final(self).related_files == old(self).related_files,
    {
        let mut out: Vec<Link> = Vec::new();
        let ghost all = link_views(site.links.internal@);
        let mut i: usize = 0;
        assert(link_views(out@) =~= Seq::<LinkView>::empty());
        while i < site.links.internal.len()
            invariant
                i <= site.links.internal.len(),
                all == link_views(site.links.internal@),
                *self == *old(self),
                link_views(out@) == backlinks_of(self.full_url@, all.take(i as int)),
            decreases site.links.internal.len() - i,
        {
            let g_link = &site.links.internal[i];
            proof {
                assert(all[i as int] == g_link@);
                assert(all.take(i + 1).drop_last() == all.take(i as int));
                assert(all.take(i + 1).last() == g_link@);
            }
            let leads = match &g_link.originating_file_url {
                Some(from) => str_eq(g_link.url.as_str(), self.full_url.as_str()) && !str_eq(
                    self.full_url.as_str(),
                    from.as_str(),
                ),
                None => false,
            };
            if leads && !holds_origin(&out, g_link) {
                let copy = g_link.clone();
                assert(link_views(out@.push(copy)) == link_views(out@).push(copy@));
                out.push(copy);
            }
            i += 1;
        }
        assert(all.take(all.len() as int) == all);
        self.backlinks = out;
    }

    /// Takes the text of the document from the text of its file.
    pub fn set_raw_contents(&mut self, content: &str)
        ensures
            final(self).raw@ == body_text(content@),
            final(self).same_identity(*old(self)),
            final(self).html == old(self).html,
            final(self).toc == old(self).toc,
            final(self).backlinks == old(self).backlinks,
            final(self).related_files == old(self).related_files,
    {
        self.raw = strip_frontmatter(content);
    }
}

/// How many characters of `s` from `from` on may stand in a short reference.
fn name_run_from(s: &Vec<char>, from: usize) -> (r: usize)
    requires
        from <= s.len(),
    ensures
        r == name_run(s@.skip(from as int)),
        from + r <= s.len(),
{
    let mut n: usize = 0;
    let ghost tail = s@.skip(from as int);
    assert(tail.skip(0) == tail);
    while from + n < s.len() && s[from + n] != ']' && s[from + n] != '[' && s[from + n] != ':'
        invariant
            from + n <= s.len(),
            tail == s@.skip(from as int),
            name_run(tail) == n + name_run(tail.skip(n as int)),
        decreases s.len() - n,
    {
        proof {
            let u = tail.skip(n as int);
            assert(u[0] == s@[from + n]);
            assert(u.skip(1) == tail.skip(n + 1));
        }
        n += 1;
    }
    proof {
        let u = tail.skip(n as int);
        if from + n < s.len() {
            assert(u[0] == s@[from + n]);
        }
    }
    n
}

/// The length of the name where a short reference starts at `i` in `s`.
fn wikilink_len(s: &Vec<char>, i: usize) -> (r: Option<usize>)
    requires
        i < s.len(),
    ensures
        match r {
            Some(n) => wikilink_at(s@.skip(i as int)) == Some(n as int) && 0 < n && i + n + 4
                <= s.len(),
            None => wikilink_at(s@.skip(i as int)) is None,
        },
{
    let ghost rest = s@.skip(i as int);
    assert(rest[0] == s@[i as int]);
    if s.len() - i < 2 || s[i] != '[' || s[i + 1] != '[' {
        proof {
            if rest.len() >= 2 {
                assert(rest[1] == s@[i + 1]);
            }
        }
        return None;
    }
    let n = name_run_from(s, i + 2);
    proof {
        assert(rest[1] == s@[i + 1]);
        assert(rest.skip(2) == s@.skip(i + 2));
    }
    if n >= 1 && s.len() - i >= 4 && n <= s.len() - i - 4 {
        proof {
            assert(rest[n + 2] == s@[i + 2 + n]);
            assert(rest[n + 3] == s@[i + 3 + n]);
        }
        if s[i + 2 + n] == ']' && s[i + 3 + n] == ']' {
            return Some(n);
        }
    }
    None
}

/// The warnings that the short references of the text of `file` give.
#[verifier::loop_isolation(false)]
pub fn note_references(site: &Site, file: &str, s: &Vec<char>) -> (r: Vec<Warning>)
    requires
        site.wf(),
    ensures
        warning_views(r@) == reference_warnings(site.flat_sitemap, file@, s@),
{
    let mut out: Vec<Warning> = Vec::new();
    let mut i: usize = 0;
    let ghost all = reference_warnings(site.flat_sitemap, file@, s@);
    proof {
        assert(s@.skip(0) == s@);
        assert(warning_views(out@) + all =~= all);
    }
    while i < s.len()
        invariant
            i <= s.len(),
            all == warning_views(out@) + reference_warnings(
                site.flat_sitemap,
                file@,
                s@.skip(i as int),
            ),
        decreases s.len() - i,
    {
        let ghost rest = s@.skip(i as int);
        let found = wikilink_len(s, i);
        if found.is_some() {
            let name_len = found.unwrap();
            let name = string_of(&slice_of(s, i + 2, i + 2 + name_len));
            let candidates = match site.flat_sitemap.find(name.as_str()) {
                Some(at) => site.flat_sitemap.values[at].len(),
                None => 0,
            };
            let ghost before = warning_views(out@);
            if candidates != 1 {
                let warning = Warning {
                    file: file.to_owned(),
                    reference: name,
                    ambiguous: candidates > 1,
                };
                assert(warning_views(out@.push(warning)) == warning_views(out@).push(warning@));
                out.push(warning);
            }
            proof {
                let noted = warning_of(site.flat_sitemap, file@, rest.subrange(2, name_len + 2));
                assert(rest.subrange(2, name_len + 2) == s@.subrange(i + 2, i + 2 + name_len));
                assert(warning_views(out@) =~= before + noted);
                assert(rest.skip(name_len + 4) == s@.skip(i + name_len + 4));
                assert(before + (noted + reference_warnings(
                    site.flat_sitemap,
                    file@,
                    s@.skip(i + name_len + 4),
                )) == (before + noted) + reference_warnings(
                    site.flat_sitemap,
                    file@,
                    s@.skip(i + name_len + 4),
                ));
            }
            i = i + name_len + 4;
        } else {
            proof {
                assert(rest.skip(1) == s@.skip(i + 1));
            }
            i += 1;
        }
    }
    proof {
        assert(s@.skip(s.len() as int).len() == 0);
        assert(warning_views(out@) + Seq::<WarningView>::empty() == warning_views(out@));
    }
    out
}

/// The markdown link that stands for a short reference.
fn link_text(name: &Vec<char>, target: &Vec<char>) -> (r: Vec<char>)
    ensures
        r@ == markdown_link(name@, target@),
{
    let mut out: Vec<char> = Vec::new();
    out.push('[');
    push_all(&mut out, name);
    push_all(&mut out, &chars_of("]("));
    push_all(&mut out, target);
    push_all(&mut out, &chars_of(".md)"));
    assert(out@ =~= markdown_link(name@, target@));
    out
}

/// A text with its short references written as markdown links.
#[verifier::loop_isolation(false)]
pub fn normalize_wikilinks(site: &Site, s: &Vec<char>) -> (r: Vec<char>)
    requires
        site.wf(),
    ensures
        r@ == normalized(site.flat_sitemap, s@),
{
    let mut out: Vec<char> = Vec::new();
    let mut i: usize = 0;
    proof {
        assert(s@.skip(0) == s@);
        assert(out@ + normalized(site.flat_sitemap, s@) == normalized(site.flat_sitemap, s@));
    }
    while i < s.len()
        invariant
            i <= s.len(),
            normalized(site.flat_sitemap, s@) == out@ + normalized(
                site.flat_sitemap,
                s@.skip(i as int),
            ),
        decreases s.len() - i,
    {
        let ghost rest = s@.skip(i as int);
        let found = wikilink_len(s, i);
        if found.is_some() {
            let name_len = found.unwrap();
            let name = slice_of(s, i + 2, i + 2 + name_len);
            let target = match site.get_item_from_flat_sitemap(string_of(&name)) {
                Some(path) => chars_of(path.as_str()),
                None => name.clone(),
            };
            let ghost before = out@;
            let piece = link_text(&name, &target);
            push_all(&mut out, &piece);
            proof {
                assert(rest.subrange(2, name_len + 2) == name@);
                assert(rest.skip(name_len + 4) == s@.skip(i + name_len + 4));
                assert(before + (piece@ + normalized(
                    site.flat_sitemap,
                    s@.skip(i + name_len + 4),
                )) == (before + piece@) + normalized(site.flat_sitemap, s@.skip(i + name_len + 4)));
            }
            i = i + name_len + 4;
        } else {
            proof {
                assert(rest.skip(1) == s@.skip(i + 1));
                assert(out@ + (seq![rest[0]] + normalized(site.flat_sitemap, s@.skip(i + 1)))
                    == out@.push(s@[i as int]) + normalized(site.flat_sitemap, s@.skip(i + 1)));
            }
            out.push(s[i]);
            i += 1;
        }
    }
    proof {
        assert(s@.skip(s.len() as int).len() == 0);
        assert(out@ + Seq::<char>::empty() == out@);
    }
    out
}

} // verus!
