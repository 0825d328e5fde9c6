//! A build of the site, in two passes.
//!
//! The first pass reads every document and fills the index of the site: the
//! tags, the sitemap, the names for short references, and, while the pages
//! are made, the links. Only when every document has been read does the
//! second pass give each document what depends on all the others: its
//! backlinks and the documents related to it.

use vstd::prelude::*;
use crate::config::Config;
use crate::dates::{formatted_date, full_form, Moment};
use crate::errors::{warning_views, DateField, WarningView};
use crate::frontmatter::{
    apply_lines, defaults, frontmatter_block, has_frontmatter, with_failures, Frontmatter,
    FrontmatterView,
};
use crate::index::{reference_path, registered, with_entries};
use crate::link::{link_views, sitemap_entry, tag_entry, Link, LinkView};
use crate::markdown::{markdown_events, reversed};
use crate::md_file::{
    backlinks_of, body_text, doc_views, normalized, page_name, page_path, page_url,
    reference_warnings, related_of, MdFile, MdFileView,
};
use crate::parser::syntax_highlight::HighlightError;
use crate::parser::{page_of, scan_all, scan_start, toc_of, Origin, Scan};
use crate::path::{file_stem, join_paths, leads_to, path_join, path_leads_to};
use crate::site::{BuildState, Site};
use crate::table::{lemma_position_of, Table};
use crate::text::{chars_of, lines_in, string_views};
use crate::util::{dir_below, is_below};
use syntect::parsing::SyntaxSet;

verus! {

/// A markdown file as it was found: where it lies, what it holds, and when
/// the file system says it was made and changed.
#[derive(Debug)]
pub struct SourceFile {
    pub path: String,
    pub content: String,
    pub created: Moment,
    pub modified: Moment,
}

/// What the documents and the links of the site are while pages are made.
pub struct Pages {
    pub docs: Seq<MdFileView>,
    pub internal: Seq<LinkView>,
    pub external: Seq<LinkView>,
    /// The short references that could not be resolved to one document.
    pub warnings: Seq<WarningView>,
}

/// Whether `file` lies in one of the ignored directories, each of them seen
/// from the directory of the site.
pub open spec fn ignored(dir: Seq<char>, dirs: Seq<Seq<char>>, file: Seq<char>) -> bool {
    exists|i: int| 0 <= i < dirs.len() && leads_to(join_paths(dir, #[trigger] dirs[i]), file)
}

/// Whether the settings leave `file` out of the site.
pub open spec fn private(dir: Seq<char>, config: Config, file: Seq<char>) -> bool {
    match config.ignored_directories {
        Some(dirs) => ignored(dir, string_views(dirs@), file),
        None => false,
    }
}

/// A source can be read: it lies below the directory of the site, its path
/// names a file, and its dates can be shown.
pub open spec fn accepted(site: Site, s: SourceFile) -> bool {
    is_below(site.dir@, s.path@) && file_stem(s.path@) is Some && s.created.wf() && s.modified.wf()
}

/// What the frontmatter of a source says.
pub open spec fn read_frontmatter(s: SourceFile) -> FrontmatterView {
    apply_lines(
        defaults(s.path@, s.created, s.modified),
        frontmatter_block(lines_in(s.content@)),
    )
}

/// The document that is made of a source, before its page is made.
pub open spec fn new_document(site: Site, s: SourceFile) -> MdFileView {
    let fm = read_frontmatter(s);
    MdFileView {
        raw: body_text(s.content@),
        html: Seq::empty(),
        path: s.path@,
        web_path_parents: dir_below(site.dir@, s.path@),
        web_path: page_name(s.path@),
        out_path: join_paths(site.dir_esker_site@, page_path(site.dir@, s.path@)),
        frontmatter: fm,
        created_text: formatted_date(fm.date_created.0, fm.date_created.1, full_form())->0,
        file_name_without_extension: file_stem(s.path@)->0,
        full_url: page_url(site.config.url@, site.dir@, s.path@),
        is_section: file_stem(s.path@)->0 == "_index"@,
        backlinks: Seq::empty(),
        toc: Seq::empty(),
        related_files: Seq::empty(),
    }
}

/// A source is read when the settings do not leave it out.
pub open spec fn eligible(site: Site, s: SourceFile) -> bool {
    !private(site.dir@, site.config, s.path@)
}

/// A source is a document when it is read and starts with frontmatter.
pub open spec fn valid(site: Site, s: SourceFile) -> bool {
    eligible(site, s) && has_frontmatter(lines_in(s.content@))
}

/// A source is published when it is a document and does not say otherwise.
pub open spec fn published(site: Site, s: SourceFile) -> bool {
    valid(site, s) && read_frontmatter(s).publish
}

/// The documents of the site: those of the published sources, in their order.
pub open spec fn documents_of(site: Site, sources: Seq<SourceFile>) -> Seq<MdFileView>
    decreases sources.len(),
{
    if sources.len() == 0 {
        Seq::empty()
    } else {
        let before = documents_of(site, sources.drop_last());
        if published(site, sources.last()) {
            before.push(new_document(site, sources.last()))
        } else {
            before
        }
    }
}

/// The entry of a document in the list of a tag.
pub open spec fn entry_of(d: MdFileView) -> LinkView {
    tag_entry(d.full_url, d.frontmatter.title, d.created_text)
}

/// The list of `tag` once the documents were entered.
pub open spec fn tag_list_of(docs: Seq<MdFileView>, tag: Seq<char>) -> Seq<LinkView>
    decreases docs.len(),
{
    if docs.len() == 0 {
        Seq::empty()
    } else {
        with_entries(
            tag_list_of(docs.drop_last(), tag),
            tag,
            docs.last().frontmatter.tags,
            entry_of(docs.last()),
        )
    }
}

/// The sitemap: one entry for each document, in their order.
pub open spec fn sitemap_of(docs: Seq<MdFileView>) -> Seq<LinkView> {
    docs.map_values(
        |d: MdFileView| sitemap_entry(d.full_url, d.frontmatter.title, d.frontmatter.date_created.0),
    )
}

/// The paths that a short reference to `key` may mean once the documents
/// were registered, the one that was registered first first.
pub open spec fn candidates_of(docs: Seq<MdFileView>, key: Seq<char>) -> Seq<Seq<char>>
    decreases docs.len(),
{
    if docs.len() == 0 {
        Seq::empty()
    } else {
        registered(
            candidates_of(docs.drop_last(), key),
            key,
            reference_path(docs.last().web_path_parents, docs.last().file_name_without_extension),
            docs.last().file_name_without_extension,
        )
    }
}

/// The sources that are read and are no documents.
pub open spec fn invalid_of(site: Site, sources: Seq<SourceFile>) -> Seq<Seq<char>>
    decreases sources.len(),
{
    if sources.len() == 0 {
        Seq::empty()
    } else {
        let before = invalid_of(site, sources.drop_last());
        if eligible(site, sources.last()) && !valid(site, sources.last()) {
            before.push(sources.last().path@)
        } else {
            before
        }
    }
}

/// The files whose date field `field` could not be read.
pub open spec fn date_errors_of(site: Site, sources: Seq<SourceFile>, field: DateField) -> Seq<
    Seq<char>,
>
    decreases sources.len(),
{
    if sources.len() == 0 {
        Seq::empty()
    } else {
        let before = date_errors_of(site, sources.drop_last(), field);
        if valid(site, sources.last()) {
            with_failures(
                before,
                sources.last().path@,
                frontmatter_block(lines_in(sources.last().content@)),
                field,
            )
        } else {
            before
        }
    }
}

/// The paths of the sources.
pub open spec fn paths_of(sources: Seq<SourceFile>) -> Seq<Seq<char>> {
    sources.map_values(|s: SourceFile| s.path@)
}

/// The index holds what the first pass found in `sources`, read from the
/// site `start`. Where the build stands is left open.
pub open spec fn scanned(site: Site, start: Site, sources: Seq<SourceFile>) -> bool {
    &&& site.wf()
    &&& site.same_but_index((Site { state: site.state, ..start }))
    &&& forall|tag: Seq<char>|
        #![trigger site.tags.list(tag)]
        link_views(site.tags.list(tag)) == tag_list_of(documents_of(start, sources), tag)
    &&& link_views(site.template_sitemap@) == sitemap_of(documents_of(start, sources))
    &&& forall|key: Seq<char>|
        #![trigger site.flat_sitemap.list(key)]
        string_views(site.flat_sitemap.list(key)) == candidates_of(
            documents_of(start, sources),
            key,
        )
    &&& string_views(site.invalid_files@) == invalid_of(start, sources)
    &&& string_views(site.errors.invalid_date_created@) == date_errors_of(
        start,
        sources,
        DateField::Created,
    )
    &&& string_views(site.errors.invalid_date_updated@) == date_errors_of(
        start,
        sources,
        DateField::Updated,
    )
    &&& string_views(site.markdown_files_paths@) == paths_of(sources)
}

/// The first pass has come through `sources`: the index holds what it found,
/// `docs` are the documents, and no page was made yet.
pub open spec fn indexed(site: Site, start: Site, docs: Seq<MdFile>, sources: Seq<SourceFile>) -> bool {
    &&& scanned(site, start, sources)
    &&& site.state == start.state
    &&& site.errors.warnings == start.errors.warnings
    &&& site.links == start.links
    &&& site.markdown_files == start.markdown_files
    &&& doc_views(docs) == documents_of(start, sources)
}

/// What reading a document comes to, given the links that were recorded
/// before it.
pub open spec fn read_document(
    base: Seq<char>,
    sitemap: Table<Vec<String>>,
    d: MdFileView,
    internal: Seq<LinkView>,
    external: Seq<LinkView>,
) -> Scan {
    scan_all(
        Origin { base, url: d.full_url, title: d.frontmatter.title },
        scan_start(internal, external),
        markdown_events(normalized(sitemap, d.raw)),
    )
}

/// The documents with their pages, made one after the other, and the links
/// that were recorded on the way; or the error that stopped it.
pub open spec fn pages_of(
    set: SyntaxSet,
    base: Seq<char>,
    sitemap: Table<Vec<String>>,
    docs: Seq<MdFileView>,
) -> Result<Pages, HighlightError>
    decreases docs.len(),
{
    if docs.len() == 0 {
        Ok(
            Pages {
                docs: Seq::empty(),
                internal: Seq::empty(),
                external: Seq::empty(),
                warnings: Seq::empty(),
            },
        )
    } else {
        match pages_of(set, base, sitemap, docs.drop_last()) {
            Err(e) => Err(e),
            Ok(p) => {
                let d = docs.last();
                let read = read_document(base, sitemap, d, p.internal, p.external);
                match page_of(set, read.out) {
                    Err(e) => Err(e),
                    Ok(html) => Ok(
                        Pages {
                            docs: p.docs.push(
                                MdFileView {
                                    raw: normalized(sitemap, d.raw),
                                    html,
                                    toc: d.toc + toc_of(set, d.full_url, read.out),
                                    ..d
                                },
                            ),
                            internal: read.internal,
                            external: read.external,
                            warnings: p.warnings + reference_warnings(sitemap, d.path, d.raw),
                        },
                    ),
                }
            },
        }
    }
}

/// A document with what depends on all the others: its backlinks and the
/// documents related to it.
pub open spec fn finished(internal: Seq<LinkView>, tags: Table<Vec<Link>>, d: MdFileView) -> MdFileView {
    MdFileView {
        backlinks: backlinks_of(d.full_url, internal),
        related_files: related_of(d.full_url, d.frontmatter.tags, tags),
        ..d
    }
}

/// The documents of a finished first pass, each with what depends on all
/// the others.
pub open spec fn all_finished(
    internal: Seq<LinkView>,
    tags: Table<Vec<Link>>,
    docs: Seq<MdFileView>,
) -> Seq<MdFileView> {
    docs.map_values(|d: MdFileView| finished(internal, tags, d))
}

/// The documents whose pages go to the directory `parents`, in their order.
pub open spec fn group_of(docs: Seq<MdFileView>, parents: Seq<char>) -> Seq<MdFileView>
    decreases docs.len(),
{
    if docs.len() == 0 {
        Seq::empty()
    } else {
        let before = group_of(docs.drop_last(), parents);
        if docs.last().web_path_parents == parents {
            before.push(docs.last())
        } else {
            before
        }
    }
}

/// The site holds a finished build of `sources`, read from the site `start`
/// with the syntaxes `set`: the index holds what the first pass found, every
/// page was made, the links and the warnings of all documents are recorded,
/// and each document has its backlinks and the documents related to it.
pub open spec fn built(site: Site, start: Site, sources: Seq<SourceFile>, set: SyntaxSet) -> bool {
    &&& scanned(site, start, sources)
    &&& pages_of(set, site.config.url@, site.flat_sitemap, documents_of(start, sources)) matches Ok(
        p,
    )
    &&& link_views(site.links.internal@) == p.internal
    &&& link_views(site.links.external@) == p.external
    &&& warning_views(site.errors.warnings@) == p.warnings
    &&& forall|parents: Seq<char>|
        #![trigger site.markdown_files.list(parents)]
        doc_views(site.markdown_files.list(parents)) == group_of(
            all_finished(p.internal, site.tags, p.docs),
            parents,
        )
}

/// Once a page could not be made, none of the later ones is.
pub proof fn lemma_pages_stay_failed(
    set: SyntaxSet,
    base: Seq<char>,
    sitemap: Table<Vec<String>>,
    docs: Seq<MdFileView>,
    n: int,
)
    requires
        0 <= n <= docs.len(),
        pages_of(set, base, sitemap, docs.take(n)) is Err,
    ensures
        pages_of(set, base, sitemap, docs) == pages_of(set, base, sitemap, docs.take(n)),
    decreases docs.len() - n,
{
    if n < docs.len() {
        assert(docs.take(n + 1).drop_last() == docs.take(n));
        lemma_pages_stay_failed(set, base, sitemap, docs, n + 1);
    } else {
        assert(docs.take(n) == docs);
    }
}

/// A site whose index is empty has read no sources.
proof fn lemma_nothing_indexed(site: Site)
    requires
        site.cleared(),
    ensures
        indexed(site, site, Seq::empty(), Seq::empty()),
{
    let none = Seq::<SourceFile>::empty();
    assert(doc_views(Seq::<MdFile>::empty()) =~= documents_of(site, none));
    assert(link_views(site.template_sitemap@) =~= sitemap_of(documents_of(site, none)));
    assert(string_views(site.invalid_files@) =~= invalid_of(site, none));
    assert(string_views(site.errors.invalid_date_created@) =~= Seq::<Seq<char>>::empty());
    assert(string_views(site.errors.invalid_date_updated@) =~= Seq::<Seq<char>>::empty());
    assert(string_views(site.markdown_files_paths@) =~= paths_of(none));
    assert forall|tag: Seq<char>|
        #![trigger site.tags.list(tag)]
        link_views(site.tags.list(tag)) == tag_list_of(documents_of(site, none), tag) by {
        lemma_position_of(site.tags.names(), tag);
        assert(link_views(site.tags.list(tag)) =~= Seq::<LinkView>::empty());
    }
    assert forall|key: Seq<char>|
        #![trigger site.flat_sitemap.list(key)]
        string_views(site.flat_sitemap.list(key)) == candidates_of(
            documents_of(site, none),
            key,
        ) by {
        lemma_position_of(site.flat_sitemap.names(), key);
        assert(string_views(site.flat_sitemap.list(key)) =~= Seq::<Seq<char>>::empty());
    }
}

impl Site {
    /// Whether `file_source` lies in a directory that the settings leave out.
    #[verifier::loop_isolation(false)]
    pub fn is_in_private_folder(&self, file_source: &str) -> (r: bool)
        ensures
            r == private(self.dir@, self.config, file_source@),
    {
        match &self.config.ignored_directories {
            Some(ignored_dirs) => {
                let file = chars_of(file_source);
                let dir = chars_of(self.dir.as_str());
                let ghost dirs = string_views(ignored_dirs@);
                let mut i: usize = 0;
                while i < ignored_dirs.len()
                    invariant
                        i <= ignored_dirs.len(),
                        forall|j: int|
                            0 <= j < i ==> !leads_to(join_paths(dir@, #[trigger] dirs[j]), file@),
                    decreases ignored_dirs.len() - i,
                {
                    let full = path_join(&dir, &chars_of(ignored_dirs[i].as_str()));
                    assert(dirs[i as int] == ignored_dirs@[i as int]@);
                    if path_leads_to(&full, &file) {
                        assert(leads_to(join_paths(dir@, dirs[i as int]), file@));
                        return true;
                    }
                    i += 1;
                }
                false
            },
            None => false,
        }
    }

    /// Reads every source and makes every page; then, the index being
    /// complete, gives each document its backlinks and the documents related
    /// to it, and sorts the documents by the directory of their page.
    ///
    /// The build goes from scanning to rendering. Where a code block cannot
    /// be highlighted, the build has failed.
    #[verifier::loop_isolation(false)]
    pub fn load_files(&mut self, sources: Vec<SourceFile>, set: &SyntaxSet) -> (r: Result<
        (),
        HighlightError,
    >)
        requires
            old(self).state == BuildState::Scanning,
            old(self).cleared(),
            forall|i: int| 0 <= i < sources@.len() ==> accepted(*old(self), #[trigger] sources@[i]),
        ensures
            scanned(*final(self), *old(self), sources@),
            r is Ok == built(*final(self), *old(self), sources@, *set),
            match r {
                Ok(()) => {
                    &&& final(self).state == BuildState::Rendering
                    &&& pages_of(
                        *set,
                        final(self).config.url@,
                        final(self).flat_sitemap,
                        documents_of(*old(self), sources@),
                    ) matches Ok(p)
                    &&& link_views(final(self).links.internal@) == p.internal
                    &&& link_views(final(self).links.external@) == p.external
                    &&& warning_views(final(self).errors.warnings@) == p.warnings
                    &&& forall|parents: Seq<char>|
                        #![trigger final(self).markdown_files.list(parents)]
                        doc_views(final(self).markdown_files.list(parents)) == group_of(
                            all_finished(p.internal, final(self).tags, p.docs),
                            parents,
                        )
                },
                Err(e) => {
                    &&& final(self).state == BuildState::Failed
                    &&& pages_of(
                        *set,
                        final(self).config.url@,
                        final(self).flat_sitemap,
                        documents_of(*old(self), sources@),
                    ) == Err::<Pages, HighlightError>(e)
                },
            },
    {
        let ghost start = *self;
        let mut docs: Vec<MdFile> = Vec::new();
        let mut i: usize = 0;
        proof {
            lemma_nothing_indexed(start);
            assert(sources@.take(0) =~= Seq::<SourceFile>::empty());
            assert(docs@ =~= Seq::<MdFile>::empty());
        }
        while i < sources.len()
            invariant
                i <= sources.len(),
                indexed(*self, start, docs@, sources@.take(i as int)),
            decreases sources.len() - i,
        {
            proof {
                assert(sources@.take(i + 1) == sources@.take(i as int).push(sources@[i as int]));
            }
            self.index_source(
                &sources[i],
                &mut docs,
                Ghost(start),
                Ghost(sources@.take(i as int)),
            );
            i += 1;
        }
        proof {
            assert(sources@.take(sources@.len() as int) == sources@);
        }
        let docs = match self.make_pages(docs, set) {
            Ok(docs) => docs,
            Err(e) => {
                self.state = BuildState::Failed;
                return Err(e);
            },
        };
        self.finish_documents(docs);
        self.state = BuildState::Rendering;
        Ok(())
    }

    /// Reads one source and enters it into the index. A source that the
    /// settings leave out is only noted; one without frontmatter is listed as
    /// invalid; a document that is not to be published is read and dropped.
    fn index_source(
        &mut self,
        source: &SourceFile,
        docs: &mut Vec<MdFile>,
        Ghost(start): Ghost<Site>,
        Ghost(sources): Ghost<Seq<SourceFile>>,
    )
        requires
            accepted(start, *source),
            indexed(*old(self), start, old(docs)@, sources),
        ensures
            indexed(*final(self), start, final(docs)@, sources.push(*source)),
    {
        proof {
            assert(string_views(self.markdown_files_paths@.push(source.path)) == string_views(
                self.markdown_files_paths@,
            ).push(source.path@));
        }
        self.markdown_files_paths.push(source.path.clone());
        if !self.is_in_private_folder(source.path.as_str()) {
            let found = Frontmatter::new(
                self,
                source.path.as_str(),
                source.content.as_str(),
                source.created.copy(),
                source.modified.copy(),
            );
            match found {
                Some(fm) => {
                    let md_file = MdFile::new(
                        self,
                        source.content.clone(),
                        source.path.clone(),
                        fm,
                    );
                    if md_file.frontmatter.publish {
                        self.collect_tags_from_frontmatter(&md_file);
                        let entry = Link::new_sitemap_link(&md_file);
                        proof {
                            assert(link_views(self.template_sitemap@.push(entry)) == link_views(
                                self.template_sitemap@,
                            ).push(entry@));
                        }
                        self.template_sitemap.push(entry);
                        Self::collect_flat_sitemap(&md_file, &mut self.flat_sitemap);
                        proof {
                            assert(doc_views(docs@.push(md_file)) == doc_views(docs@).push(
                                md_file@,
                            ));
                        }
                        docs.push(md_file);
                    }
                },
                None => {
                    proof {
                        assert(string_views(self.invalid_files@.push(source.path))
                            == string_views(self.invalid_files@).push(source.path@));
                    }
                    self.invalid_files.push(source.path.clone());
                },
            }
        }
        proof {
            let more = sources.push(*source);
            assert(more.drop_last() == sources);
            assert(more.last() == *source);
            assert(paths_of(more) == paths_of(sources).push(source.path@));
            if published(start, *source) {
                let d = new_document(start, *source);
                let made = docs@.last()@;
                assert(made.html =~= d.html);
                assert(made.backlinks =~= d.backlinks);
                assert(made.toc =~= d.toc);
                assert(made.related_files =~= d.related_files);
                assert(made == d);
                assert(documents_of(start, more) == documents_of(start, sources).push(d));
                assert(documents_of(start, more).drop_last() == documents_of(start, sources));
                assert(sitemap_of(documents_of(start, more)) == sitemap_of(
                    documents_of(start, sources),
                ).push(
                    sitemap_entry(d.full_url, d.frontmatter.title, d.frontmatter.date_created.0),
                ));
            } else {
                assert(documents_of(start, more) == documents_of(start, sources));
            }
        }
    }

    /// Makes the page of each document in turn.
    #[verifier::loop_isolation(false)]
    fn make_pages(&mut self, docs: Vec<MdFile>, set: &SyntaxSet) -> (r: Result<
        Vec<MdFile>,
        HighlightError,
    >)
        requires
            old(self).wf(),
            old(self).links.internal@.len() == 0,
            old(self).links.external@.len() == 0,
            old(self).errors.warnings@.len() == 0,
        ensures
            final(self).same_but_links_and_errors(*old(self)),
            final(self).errors.invalid_date_created == old(self).errors.invalid_date_created,
            final(self).errors.invalid_date_updated == old(self).errors.invalid_date_updated,
            match r {
                Ok(made) => {
                    &&& pages_of(
                        *set,
                        old(self).config.url@,
                        old(self).flat_sitemap,
                        doc_views(docs@),
                    ) matches Ok(p)
                    &&& doc_views(made@) == p.docs
                    &&& link_views(final(self).links.internal@) == p.internal
                    &&& link_views(final(self).links.external@) == p.external
                    &&& warning_views(final(self).errors.warnings@) == p.warnings
                },
                Err(e) => pages_of(
                    *set,
                    old(self).config.url@,
                    old(self).flat_sitemap,
                    doc_views(docs@),
                ) == Err::<Pages, HighlightError>(e),
            },
    {
        let ghost all = doc_views(docs@);
        let ghost start = *self;
        let ghost base = self.config.url@;
        let ghost sitemap = self.flat_sitemap;
        let mut queue = reversed(docs);
        let mut made: Vec<MdFile> = Vec::new();
        let ghost mut done: int = 0;
        proof {
            assert(all.take(0) =~= Seq::<MdFileView>::empty());
            assert(doc_views(made@) =~= Seq::<MdFileView>::empty());
            assert(link_views(self.links.internal@) =~= Seq::<LinkView>::empty());
            assert(link_views(self.links.external@) =~= Seq::<LinkView>::empty());
            assert(warning_views(self.errors.warnings@) =~= Seq::<WarningView>::empty());
        }
        while queue.len() > 0
            invariant
                0 <= done <= all.len(),
                queue@.len() + done == all.len(),
                forall|j: int| 0 <= j < queue@.len() ==> (#[trigger] queue@[j])@ == all[all.len()
                    - 1 - j],
                self.same_but_links_and_errors(start),
                self.errors.invalid_date_created == start.errors.invalid_date_created,
                self.errors.invalid_date_updated == start.errors.invalid_date_updated,
                pages_of(*set, base, sitemap, all.take(done)) matches Ok(p) && doc_views(made@)
                    == p.docs && link_views(self.links.internal@) == p.internal && link_views(
                    self.links.external@,
                ) == p.external && warning_views(self.errors.warnings@) == p.warnings,
            decreases queue.len(),
        {
            let mut md_file = queue.pop().unwrap();
            proof {
                assert(md_file@ == all[done]);
                assert(all.take(done + 1).drop_last() == all.take(done));
                assert(all.take(done + 1).last() == all[done]);
            }
            let ghost before = md_file@;
            match md_file.parse_markdown_to_html(self, set) {
                Ok(()) => {},
                Err(e) => {
                    proof {
                        lemma_pages_stay_failed(*set, base, sitemap, all, done + 1);
                    }
                    return Err(e);
                },
            }
            proof {
                let p = pages_of(*set, base, sitemap, all.take(done))->Ok_0;
                let read = read_document(base, sitemap, before, p.internal, p.external);
                let want = MdFileView {
                    raw: normalized(sitemap, before.raw),
                    html: page_of(*set, read.out)->Ok_0,
                    toc: before.toc + toc_of(*set, before.full_url, read.out),
                    ..before
                };
                assert(md_file@ == want);
                assert(doc_views(made@.push(md_file)) == doc_views(made@).push(md_file@));
                done = done + 1;
            }
            made.push(md_file);
        }
        proof {
            assert(all.take(all.len() as int) == all);
        }
        Ok(made)
    }

    /// Gives each document its backlinks and the documents related to it,
    /// and sorts the documents by the directory of their page.
    #[verifier::loop_isolation(false)]
    fn finish_documents(&mut self, docs: Vec<MdFile>)
        requires
            old(self).wf(),
            old(self).markdown_files.keys@.len() == 0,
        ensures
            final(self).wf(),
            final(self).same_but_documents(*old(self)),
            forall|parents: Seq<char>|
                #![trigger final(self).markdown_files.list(parents)]
                doc_views(final(self).markdown_files.list(parents)) == group_of(
                    all_finished(
                        link_views(old(self).links.internal@),
                        old(self).tags,
                        doc_views(docs@),
                    ),
                    parents,
                ),
    {
        let ghost all = doc_views(docs@);
        let ghost start = *self;
        let ghost wanted = all_finished(link_views(self.links.internal@), self.tags, all);
        let mut queue = reversed(docs);
        let ghost mut done: int = 0;
        proof {
            assert(wanted.take(0) =~= Seq::<MdFileView>::empty());
            assert forall|parents: Seq<char>|
                #![trigger self.markdown_files.list(parents)]
                doc_views(self.markdown_files.list(parents)) == Seq::<MdFileView>::empty() by {
                lemma_position_of(self.markdown_files.names(), parents);
                assert(doc_views(self.markdown_files.list(parents)) =~= Seq::<
                    MdFileView,
                >::empty());
            }
        }
        while queue.len() > 0
            invariant
                0 <= done <= all.len(),
                queue@.len() + done == all.len(),
                forall|j: int| 0 <= j < queue@.len() ==> (#[trigger] queue@[j])@ == all[all.len()
                    - 1 - j],
                self.wf(),
                self.same_but_documents(start),
                forall|parents: Seq<char>|
                    #![trigger self.markdown_files.list(parents)]
                    doc_views(self.markdown_files.list(parents)) == group_of(
                        wanted.take(done),
                        parents,
                    ),
            decreases queue.len(),
        {
            let mut f = queue.pop().unwrap();
            let ghost before = f@;
            f.get_backlinks_for_file(self);
            f.get_related_files(self);
            let ghost table = self.markdown_files;
            proof {
                assert(before == all[done]);
                assert(f@ == finished(link_views(start.links.internal@), start.tags, before));
                assert(wanted[done] == f@);
                assert(wanted.take(done + 1).drop_last() == wanted.take(done));
                assert(wanted.take(done + 1).last() == f@);
                assert(doc_views(table.list(f.web_path_parents@).push(f)) == doc_views(
                    table.list(f.web_path_parents@),
                ).push(f@));
            }
            let parents = f.web_path_parents.clone();
            self.markdown_files.push_to(parents.as_str(), f);
            proof {
                assert forall|k: Seq<char>|
                    #![trigger self.markdown_files.list(k)]
                    doc_views(self.markdown_files.list(k)) == group_of(
                        wanted.take(done + 1),
                        k,
                    ) by {
                    if k != parents@ {
                        assert(self.markdown_files.list(k) == table.list(k));
                    }
                }
                done = done + 1;
            }
        }
        proof {
            assert(wanted.take(wanted.len() as int) == wanted);
        }
    }
}

} // verus!
