//! The plan of a build: the steps that make a site, and what some of them
//! work on. The caller carries the steps out, one after the other.

use vstd::prelude::*;
use crate::link::link_views;
use crate::md_file::{has_url, holds_url};
use crate::path::{join_paths, path_join, path_with_extension, with_extension};
use crate::site::Site;
use crate::text::{chars_of, opt_view, string_of, string_views};

verus! {

/// One step of a build, for the caller to carry out.
#[derive(Debug, Clone, Copy, PartialEq, Eq, Structural)]
pub enum BuildStep {
    /// Read the settings of the site again.
    ReloadConfig,
    /// Take away everything that was written.
    RemoveOutput,
    /// Forget what the last build found out.
    ClearIndex,
    /// Read the templates again.
    ReloadTemplates,
    /// Make the directories that a build writes to.
    CreateDirectories,
    /// Read every document and write its page.
    LoadFiles,
    /// Write a page for each tag.
    BuildTagPages,
    /// Write the style sheets of the highlighter.
    CreateThemeCss,
    /// Copy the attachments.
    CopyData,
    /// Copy the public files.
    CopyPublic,
    /// Write the feed.
    BuildSyndicationPages,
    /// Tell what went wrong, if anything did.
    ReportErrors,
}

/// The page of a tag: the tag and the file that the page is written to.
#[derive(Debug)]
pub struct TagPage {
    pub tag: String,
    pub out_path: String,
}

/// The steps of a build from nothing.
pub open spec fn full_build() -> Seq<BuildStep> {
    seq![
        BuildStep::CreateDirectories,
        BuildStep::LoadFiles,
        BuildStep::BuildTagPages,
        BuildStep::CreateThemeCss,
        BuildStep::CopyData,
        BuildStep::CopyPublic,
        BuildStep::BuildSyndicationPages,
        BuildStep::ReportErrors,
    ]
}

/// The steps after a template or the settings changed: everything that was
/// written is taken away, and the site is built from nothing.
pub open spec fn full_rebuild() -> Seq<BuildStep> {
    seq![
        BuildStep::ReloadConfig,
        BuildStep::RemoveOutput,
        BuildStep::ClearIndex,
        BuildStep::ReloadTemplates,
    ] + full_build()
}

/// The steps after a document changed: every document is read again and
/// every page written again; nothing is taken away and nothing copied.
pub open spec fn markdown_rebuild() -> Seq<BuildStep> {
    seq![
        BuildStep::ClearIndex,
        BuildStep::LoadFiles,
        BuildStep::BuildTagPages,
        BuildStep::BuildSyndicationPages,
    ]
}

/// The directories that a build writes to.
pub open spec fn required_directories(site: Site) -> Seq<Seq<char>> {
    let always = seq![site.dir_esker@, site.dir_esker_public@, site.dir_esker_site_public@];
    match site.config.attachment_directory {
        Some(a) => always.push(join_paths(site.dir_esker@, a@)),
        None => always,
    }
}

/// The views of a list of tag pages.
pub open spec fn tag_page_views(pages: Seq<TagPage>) -> Seq<(Seq<char>, Seq<char>)> {
    pages.map_values(|p: TagPage| (p.tag@, p.out_path@))
}

/// The pages of the tags `names` in the directory `dir`: one for each tag
/// with a name, in their order.
pub open spec fn pages_in(dir: Seq<char>, names: Seq<Seq<char>>) -> Seq<(Seq<char>, Seq<char>)>
    decreases names.len(),
{
    if names.len() == 0 {
        Seq::empty()
    } else if names.last().len() == 0 {
        pages_in(dir, names.drop_last())
    } else {
        pages_in(dir, names.drop_last()).push(
            (names.last(), join_paths(dir, with_extension(names.last(), "html"@))),
        )
    }
}

/// The pages of the tags, where the site has a directory for them.
pub open spec fn tag_pages(dir: Option<Seq<char>>, names: Seq<Seq<char>>) -> Seq<
    (Seq<char>, Seq<char>),
> {
    match dir {
        Some(d) => pages_in(d, names),
        None => Seq::empty(),
    }
}

/// A text as it stands in the fragment of a URL.
pub uninterp spec fn fragment_encoded(text: Seq<char>) -> Seq<char>;

/// `encode_fragment` of url_escape: the text with the characters that may
/// not stand in the fragment of a URL written as percent escapes.
#[verifier::external_body]
pub(crate) fn encode_fragment(text: &str) -> (r: String)
    ensures
        r@ == fragment_encoded(text@),
{
    url_escape::encode_fragment(text).into_owned()
}

impl Site {
    /// The steps of a build from nothing.
    pub fn build(&self) -> (r: Vec<BuildStep>)
        ensures
            r@ == full_build(),
    {
        let mut steps: Vec<BuildStep> = Vec::new();
        steps.push(BuildStep::CreateDirectories);
        steps.push(BuildStep::LoadFiles);
        steps.push(BuildStep::BuildTagPages);
        steps.push(BuildStep::CreateThemeCss);
        steps.push(BuildStep::CopyData);
        steps.push(BuildStep::CopyPublic);
        steps.push(BuildStep::BuildSyndicationPages);
        steps.push(BuildStep::ReportErrors);
        assert(steps@ =~= full_build());
        steps
    }

    /// The steps after a template or the settings changed.
    pub fn rebuild(&self) -> (r: Vec<BuildStep>)
        ensures
            r@ == full_rebuild(),
    {
        let mut steps: Vec<BuildStep> = Vec::new();
        steps.push(BuildStep::ReloadConfig);
        steps.push(BuildStep::RemoveOutput);
        steps.push(BuildStep::ClearIndex);
        steps.push(BuildStep::ReloadTemplates);
        let mut rest = self.build();
        steps.append(&mut rest);
        assert(steps@ =~= full_rebuild());
        steps
    }

    /// The steps after a document changed.
    pub fn rebuild_markdown(&self) -> (r: Vec<BuildStep>)
        ensures
            r@ == markdown_rebuild(),
    {
        let mut steps: Vec<BuildStep> = Vec::new();
        steps.push(BuildStep::ClearIndex);
        steps.push(BuildStep::LoadFiles);
        steps.push(BuildStep::BuildTagPages);
        steps.push(BuildStep::BuildSyndicationPages);
        assert(steps@ =~= markdown_rebuild());
        steps
    }

    /// The directories that a build writes to and that must be there before
    /// it starts.
    pub fn create_required_directories_for_build(&self) -> (r: Vec<String>)
        ensures
            string_views(r@) == required_directories(*self),
    {
        let mut dirs: Vec<String> = Vec::new();
        dirs.push(self.dir_esker.clone());
        dirs.push(self.dir_esker_public.clone());
        dirs.push(self.dir_esker_site_public.clone());
        match &self.config.attachment_directory {
            Some(attachment_dir) => {
                let dir_attachments_build = path_join(
                    &chars_of(self.dir_esker.as_str()),
                    &chars_of(attachment_dir.as_str()),
                );
                dirs.push(string_of(&dir_attachments_build));
            },
            None => {},
        }
        assert(string_views(dirs@) =~= required_directories(*self));
        dirs
    }

    /// The pages of the tags: for each tag with a name the file that its
    /// page is written to, in the order in which the tags were first seen.
    /// A site without a directory for tags has no such pages.
    pub fn build_tag_pages(&self) -> (r: Vec<TagPage>)
        requires
            self.wf(),
        ensures
            tag_page_views(r@) == tag_pages(opt_view(self.dir_esker_site_tags), self.tags.names()),
    {
        let mut pages: Vec<TagPage> = Vec::new();
        let dir_tags = match &self.dir_esker_site_tags {
            Some(dir_tags) => chars_of(dir_tags.as_str()),
            None => {
                assert(tag_page_views(pages@) =~= Seq::<(Seq<char>, Seq<char>)>::empty());
                return pages;
            },
        };
        let ghost names = self.tags.names();
        let mut i: usize = 0;
        assert(tag_page_views(pages@) =~= pages_in(dir_tags@, names.take(0)));
        while i < self.tags.keys.len()
            invariant
                i <= self.tags.keys.len(),
                names == self.tags.names(),
                tag_page_views(pages@) == pages_in(dir_tags@, names.take(i as int)),
            decreases self.tags.keys.len() - i,
        {
            let tag_name = &self.tags.keys[i];
            proof {
                assert(names[i as int] == tag_name@);
                assert(names.take(i + 1).drop_last() == names.take(i as int));
                assert(names.take(i + 1).last() == tag_name@);
            }
            let name = chars_of(tag_name.as_str());
            if name.len() > 0 {
                let tag_file_name = path_with_extension(&name, &chars_of("html"));
                let out_path = string_of(&path_join(&dir_tags, &tag_file_name));
                let page = TagPage { tag: tag_name.clone(), out_path };
                assert(tag_page_views(pages@.push(page)) == tag_page_views(pages@).push(
                    (page.tag@, page.out_path@),
                ));
                pages.push(page);
            }
            i += 1;
        }
        assert(names.take(names.len() as int) == names);
        pages
    }

    /// Whether a file that was copied with the attachments is referred to by
    /// no document. `path` is the path of the file seen from where the site
    /// is written.
    pub fn is_unused_attachment(&self, path: &str) -> (r: bool)
        ensures
            r == !has_url(link_views(self.attachments@), fragment_encoded(path@)),
    {
        let encoded = encode_fragment(path);
        !holds_url(&self.attachments, encoded.as_str())
    }
}

} // verus!
