//! The site: its directories, its settings, and the index that grows while
//! its documents are scanned.

use vstd::prelude::*;
use crate::config::Config;
use crate::errors::Errors;
use crate::link::{link_views, Link, SiteLinks};
use crate::md_file::MdFile;
use crate::path::{join_paths, path_join};
use crate::table::Table;
use crate::text::{chars_of, opt_view, push_all, string_of};

verus! {

/// Where a build stands.
#[derive(Debug, Clone, Copy, PartialEq, Eq, Structural)]
pub enum BuildState {
    /// No build is running.
    Idle,
    /// Documents are being read and indexed.
    Scanning,
    /// Every document has been indexed; pages are being written.
    Rendering,
    /// The last build stopped on an error.
    Failed,
}

/// What a change to the files of the site asks for.
#[derive(Debug, Clone, Copy, PartialEq, Eq, Structural)]
pub enum Rebuild {
    /// Take away what was written and build the site from nothing.
    Full,
    /// Read every document and write every page again.
    Markdown,
    /// Copy the public files.
    CopyPublic,
    /// Copy the attachments.
    CopyData,
}

/// A site and what a build has found out about it.
#[derive(Debug)]
pub struct Site {
    /// The directory that the site is built in.
    pub dir: String,
    /// The paths of the markdown files that were found.
    pub markdown_files_paths: Vec<String>,
    /// The documents, by the directory that their page goes to.
    pub markdown_files: Table<Vec<MdFile>>,
    /// The files without frontmatter.
    pub invalid_files: Vec<String>,
    /// The directory that holds everything of the site but its documents.
    pub dir_esker: String,
    /// Where the templates lie.
    pub dir_esker_templates: String,
    /// Where the pages are written.
    pub dir_esker_site: String,
    /// Where the attachments lie, if the site has any.
    pub dir_attachments: Option<String>,
    /// Where the public files lie.
    pub dir_esker_public: String,
    /// Where the attachments are copied to.
    pub dir_esker_site_attachments: Option<String>,
    /// Where the public files are copied to.
    pub dir_esker_site_public: String,
    /// Where the pages of the tags are written, if the site has any.
    pub dir_esker_site_tags: Option<String>,
    /// What went wrong without stopping the build.
    pub errors: Errors,
    /// The links that the documents hold.
    pub links: SiteLinks,
    pub config: Config,
    /// For each tag the documents that carry it.
    pub tags: Table<Vec<Link>>,
    /// One entry for each published document.
    pub template_sitemap: Vec<Link>,
    /// The attachments that documents refer to.
    pub attachments: Vec<Link>,
    /// For the name and for the path of each document the paths that a short
    /// reference by that name may mean.
    pub flat_sitemap: Table<Vec<String>>,
    /// Where the build stands.
    pub state: BuildState,
    /// What was asked for while a build was running, the oldest request first.
    pub pending: Vec<Rebuild>,
}

/// The address of a page: the base URL, a slash, the path of the page.
pub open spec fn with_baseurl(base: Seq<char>, web_path: Seq<char>) -> Seq<char> {
    base + seq!['/'] + web_path
}

/// The directory that holds the templates and the public files: that of the
/// theme where the settings name one, else `dir_esker` itself.
pub open spec fn theme_root(dir_esker: Seq<char>, config: Config) -> Seq<char> {
    match config.theme {
        Some(theme) => join_paths(join_paths(dir_esker, "themes"@), theme@),
        None => dir_esker,
    }
}

/// `name` seen from `base`, where there is a name.
pub open spec fn below(base: Seq<char>, name: Option<Seq<char>>) -> Option<Seq<char>> {
    match name {
        Some(n) => Some(join_paths(base, n)),
        None => None,
    }
}

impl Site {
    /// The tables of the site hold no name twice.
    pub open spec fn wf(&self) -> bool {
        self.tags.wf() && self.flat_sitemap.wf() && self.markdown_files.wf()
    }

    /// Everything but the recorded errors is as in `other`.
    pub open spec fn same_but_errors(&self, other: Site) -> bool {
        *self == (Site { errors: self.errors, ..other })
    }

    /// Everything but the recorded links is as in `other`.
    pub open spec fn same_but_links(&self, other: Site) -> bool {
        *self == (Site { links: self.links, ..other })
    }

    /// Everything but the recorded links and what went wrong is as in
    /// `other`.
    pub open spec fn same_but_links_and_errors(&self, other: Site) -> bool {
        *self == (Site { links: self.links, errors: self.errors, ..other })
    }

    /// Everything but the table of tags is as in `other`.
    pub open spec fn same_but_tags(&self, other: Site) -> bool {
        *self == (Site { tags: self.tags, ..other })
    }

    /// Everything but the documents is as in `other`.
    pub open spec fn same_but_documents(&self, other: Site) -> bool {
        *self == (Site { markdown_files: self.markdown_files, ..other })
    }

    /// Everything but the attachments is as in `other`.
    pub open spec fn same_but_attachments(&self, other: Site) -> bool {
        *self == (Site { attachments: self.attachments, ..other })
    }

    /// Everything but where the build stands and what waits is as in `other`.
    pub open spec fn same_but_progress(&self, other: Site) -> bool {
        *self == (Site { state: self.state, pending: self.pending, ..other })
    }

    /// Everything but what a build finds out is as in `other`: the
    /// directories, the settings, the attachments, where the build stands and
    /// what waits.
    pub open spec fn same_but_index(&self, other: Site) -> bool {
        *self == (Site {
            markdown_files_paths: self.markdown_files_paths,
            markdown_files: self.markdown_files,
            invalid_files: self.invalid_files,
            errors: self.errors,
            links: self.links,
            tags: self.tags,
            template_sitemap: self.template_sitemap,
            flat_sitemap: self.flat_sitemap,
            ..other
        })
    }

    /// The index of the site is empty, as at the start of a build.
    pub open spec fn cleared(&self) -> bool {
        &&& self.wf()
        &&& self.markdown_files_paths@.len() == 0
        &&& self.markdown_files.keys@.len() == 0
        &&& self.invalid_files@.len() == 0
        &&& self.errors.is_empty()
        &&& self.links.internal@.len() == 0
        &&& self.links.external@.len() == 0
        &&& self.tags.keys@.len() == 0
        &&& self.template_sitemap@.len() == 0
        &&& self.flat_sitemap.keys@.len() == 0
    }

    /// The site in the directory `dir` with the settings `config`, before
    /// anything was built. Everything of the site lies in `_esker` below
    /// `dir`: what is written in `_site`, templates and public files in
    /// `templates` and `public`, or in the directory of the theme where the
    /// settings name one.
    pub fn new(dir: String, config: Config) -> (r: Site)
        ensures
            r.cleared(),
            r.dir == dir,
            r.config == config,
            r.state == BuildState::Idle,
            r.pending@.len() == 0,
            r.attachments@.len() == 0,
            r.dir_esker@ == join_paths(dir@, "_esker"@),
            r.dir_esker_site@ == join_paths(r.dir_esker@, "_site"@),
            r.dir_esker_site_public@ == join_paths(r.dir_esker@, "_site/public"@),
            r.dir_esker_templates@ == join_paths(theme_root(r.dir_esker@, config), "templates"@),
            r.dir_esker_public@ == join_paths(theme_root(r.dir_esker@, config), "public"@),
            opt_view(r.dir_esker_site_tags) == below(r.dir_esker_site@, opt_view(config.tags_url)),
            opt_view(r.dir_attachments) == below(dir@, opt_view(config.attachment_directory)),
            opt_view(r.dir_esker_site_attachments) == below(
                r.dir_esker_site@,
                opt_view(config.attachment_directory),
            ),
    {
        let cwd = chars_of(dir.as_str());
        let esker_dir = path_join(&cwd, &chars_of("_esker"));
        let dir_esker_build = path_join(&esker_dir, &chars_of("_site"));
        let dir_esker_tags = match &config.tags_url {
            Some(tags_dir) => Some(
                string_of(&path_join(&dir_esker_build, &chars_of(tags_dir.as_str()))),
            ),
            None => None,
        };
        let dir_attachments = match &config.attachment_directory {
            Some(attachment_dir) => Some(
                string_of(&path_join(&cwd, &chars_of(attachment_dir.as_str()))),
            ),
            None => None,
        };
        let dir_esker_build_attachments = match &config.attachment_directory {
            Some(attachment_dir) => Some(
                string_of(&path_join(&dir_esker_build, &chars_of(attachment_dir.as_str()))),
            ),
            None => None,
        };
        let (dir_esker_templates, dir_esker_public) = Site::get_possible_theme_paths(
            &config,
            &esker_dir,
        );
        Site {
            dir,
            markdown_files_paths: Vec::new(),
            markdown_files: Table::new(),
            invalid_files: Vec::new(),
            dir_esker_templates,
            dir_esker_site: string_of(&dir_esker_build),
            dir_attachments,
            dir_esker_public,
            dir_esker_site_attachments: dir_esker_build_attachments,
            dir_esker_site_public: string_of(&path_join(&esker_dir, &chars_of("_site/public"))),
            dir_esker: string_of(&esker_dir),
            dir_esker_site_tags: dir_esker_tags,
            errors: Errors::new(),
            config,
            links: SiteLinks::new(),
            tags: Table::new(),
            template_sitemap: Vec::new(),
            attachments: Vec::new(),
            flat_sitemap: Table::new(),
            state: BuildState::Idle,
            pending: Vec::new(),
        }
    }

    /// Where the templates and the public files of the site lie: in the
    /// directory of the theme where the settings name one, else in `_esker`
    /// itself.
    pub fn get_possible_theme_paths(cfg: &Config, dir_esker: &Vec<char>) -> (r: (String, String))
        ensures
            r.0@ == join_paths(theme_root(dir_esker@, *cfg), "templates"@),
            r.1@ == join_paths(theme_root(dir_esker@, *cfg), "public"@),
    {
        let root = match &cfg.theme {
            Some(theme) => {
                let themes = path_join(dir_esker, &chars_of("themes"));
                path_join(&themes, &chars_of(theme.as_str()))
            },
            None => dir_esker.clone(),
        };
        (
            string_of(&path_join(&root, &chars_of("templates"))),
            string_of(&path_join(&root, &chars_of("public"))),
        )
    }

    /// The address of the page at `web_path`.
    pub fn build_with_baseurl(&self, web_path: String) -> (r: String)
        ensures
            r@ == with_baseurl(self.config.url@, web_path@),
    {
        let mut out = chars_of(self.config.url.as_str());
        out.push('/');
        let tail = chars_of(web_path.as_str());
        push_all(&mut out, &tail);
        string_of(&out)
    }

    /// Records a link that a document holds: with the links into the site
    /// where it leads to one of its documents, with the links out of it
    /// otherwise.
    pub fn add_link(&mut self, link: Link)
        ensures
            link.is_internal ==> link_views(final(self).links.internal@) == link_views(
                old(self).links.internal@,
            ).push(link@) && final(self).links.external == old(self).links.external,
            !link.is_internal ==> link_views(final(self).links.external@) == link_views(
                old(self).links.external@,
            ).push(link@) && final(self).links.internal == old(self).links.internal,
            final(self).same_but_links(*old(self)),
    {
        if link.is_internal {
            proof {
                assert(link_views(self.links.internal@.push(link)) == link_views(
                    self.links.internal@,
                ).push(link@));
            }
            self.links.internal.push(link)
        } else {
            proof {
                assert(link_views(self.links.external@.push(link)) == link_views(
                    self.links.external@,
                ).push(link@));
            }
            self.links.external.push(link)
        }
    }

    /// Records an attachment that a document refers to.
    pub fn add_attachment(&mut self, link: Link)
        ensures
            final(self).attachments@ == old(self).attachments@.push(link),
            final(self).same_but_attachments(*old(self)),
    {
        self.attachments.push(link);
    }

    /// Forgets what the last build found out: the index is empty at the
    /// start of each build.
    pub fn clear_site_for_rebuild(&mut self)
        ensures
            final(self).cleared(),
            final(self).same_but_index(*old(self)),
    {
        self.errors.clear();
        self.markdown_files.clear();
        self.markdown_files_paths.clear();
        self.invalid_files.clear();
        self.tags.clear();
        self.template_sitemap.clear();
        self.links.internal.clear();
        self.links.external.clear();
        self.flat_sitemap.clear();
    }
}

} // verus!
