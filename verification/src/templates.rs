//! What the templates are given.
//!
//! A template sees the page it is rendered for, the site-wide settings, the
//! table of tags and the sitemap. The values here are put together for the
//! template engine; the engine itself is run by the caller.

use vstd::prelude::*;
use crate::link::Link;
use crate::md_file::MdFile;
use crate::site::Site;
use crate::text::{concat, str_eq, string_views};
use crate::util::naive_date_to_str;
use tera::Tera;

verus! {

#[verifier::external_type_specification]
#[verifier::external_body]
pub struct ExTera(Tera);

/// The names of the templates that an engine has loaded.
pub uninterp spec fn loaded_templates(tera: Tera) -> Set<Seq<char>>;

/// `Tera::get_template_names` of tera, gathered in a list: the names of the
/// templates that the engine holds, in no order that could be told.
#[verifier::external_body]
pub(crate) fn template_names(tera: &Tera) -> (r: Vec<String>)
    ensures
        forall|name: Seq<char>|
            #![trigger loaded_templates(*tera).contains(name)]
            string_views(r@).contains(name) <==> loaded_templates(*tera).contains(name),
{
    tera.get_template_names().map(String::from).collect()
}

/// The template that is used where a document names none that is loaded.
pub open spec fn default_template() -> Seq<char> {
    "single.html"@
}

/// The template of a document: the one it names, where that is loaded, else
/// the default.
pub open spec fn chosen_template(loaded: Set<Seq<char>>, template: Seq<char>) -> Seq<char> {
    if loaded.contains(template + ".html"@) {
        template + ".html"@
    } else {
        default_template()
    }
}

/// The name of the template to render a document with.
pub fn get_name(tera: &Tera, template: &str) -> (r: String)
    ensures
        r@ == chosen_template(loaded_templates(*tera), template@),
{
    let names = template_names(tera);
    pick_name(&names, template)
}

/// The template of a document, given the names of the templates that are
/// loaded.
pub fn pick_name(names: &Vec<String>, template: &str) -> (r: String)
    ensures
        r@ == (if string_views(names@).contains(template@ + ".html"@) {
            template@ + ".html"@
        } else {
            default_template()
        }),
{
    let template_with_html = concat(template, ".html");
    let mut i: usize = 0;
    while i < names.len()
        invariant
            i <= names.len(),
            template_with_html@ == template@ + ".html"@,
            forall|j: int| 0 <= j < i ==> string_views(names@)[j] != template_with_html@,
        decreases names.len() - i,
    {
        if str_eq(names[i].as_str(), template_with_html.as_str()) {
            assert(string_views(names@)[i as int] == template_with_html@);
            return template_with_html;
        }
        i += 1;
    }
    "single.html".to_owned()
}

/// The settings of the site, as templates see them.
#[derive(Debug)]
pub struct Config {
    pub title: String,
    pub description: String,
    pub url: String,
}

impl Config {
    pub fn new(site: &Site) -> (r: Self)
        ensures
            r.title@ == site.config.title@,
            r.description@ == (match site.config.description {
                Some(d) => d@,
                None => Seq::empty(),
            }),
            r.url@ == site.config.url@,
    {
        Self {
            title: site.config.title.clone(),
            description: match &site.config.description {
                Some(d) => d.clone(),
                None => String::new(),
            },
            url: site.config.url.clone(),
        }
    }
}

/// A document, as templates see it.
#[derive(Debug)]
pub struct Page<'a> {
    pub content: &'a String,
    pub title: &'a String,
    pub backlinks: &'a Vec<Link>,
    pub url: &'a String,
    pub summary: &'a Option<String>,
    pub date_created: String,
    pub date_updated: String,
    pub date_created_timestamp: i64,
    pub date_updated_timestamp: i64,
    pub tags: &'a Vec<String>,
    pub toc: &'a Vec<Link>,
    pub related_files: &'a Vec<Link>,
    pub is_section: bool,
}

/// The page shows the document: each of its fields is the document's.
pub open spec fn shows(page: Page, md_file: MdFile) -> bool {
    &&& *page.content == md_file.html
    &&& *page.title == md_file.frontmatter.title
    &&& *page.backlinks == md_file.backlinks
    &&& *page.url == md_file.full_url
    &&& *page.summary == md_file.frontmatter.summary
    &&& page.date_created@ == md_file.frontmatter.date_created.label@
    &&& page.date_updated@ == md_file.frontmatter.date_updated.label@
    &&& page.date_created_timestamp == md_file.frontmatter.date_created.timestamp
    &&& page.date_updated_timestamp == md_file.frontmatter.date_updated.timestamp
    &&& *page.tags == md_file.frontmatter.tags
    &&& *page.toc == md_file.toc
    &&& *page.related_files == md_file.related_files
    &&& page.is_section == md_file.is_section
}

impl<'a> Page<'a> {
    pub fn new(md_file: &'a MdFile) -> (r: Page<'a>)
        ensures
            shows(r, *md_file),
    {
        Page {
            content: &md_file.html,
            title: &md_file.frontmatter.title,
            backlinks: &md_file.backlinks,
            url: &md_file.full_url,
            summary: &md_file.frontmatter.summary,
            date_created: naive_date_to_str(&md_file.frontmatter.date_created),
            date_updated: naive_date_to_str(&md_file.frontmatter.date_updated),
            date_created_timestamp: md_file.frontmatter.date_created.timestamp,
            date_updated_timestamp: md_file.frontmatter.date_updated.timestamp,
            tags: &md_file.frontmatter.tags,
            toc: &md_file.toc,
            related_files: &md_file.related_files,
            is_section: md_file.is_section,
        }
    }
}

/// The documents of a directory, as the template of its section sees them.
#[derive(Debug)]
pub struct SectionPage<'a> {
    pub pages: Vec<Page<'a>>,
}

impl<'a> SectionPage<'a> {
    pub fn new(pages: Vec<Page<'a>>) -> (r: SectionPage<'a>)
        ensures
            r.pages == pages,
    {
        SectionPage { pages }
    }
}

/// The documents of one directory that its section lists: all but the
/// sections themselves, in their order.
pub open spec fn listed(docs: Seq<MdFile>) -> Seq<MdFile>
    decreases docs.len(),
{
    if docs.len() == 0 {
        Seq::empty()
    } else if docs.last().is_section {
        listed(docs.drop_last())
    } else {
        listed(docs.drop_last()).push(docs.last())
    }
}

/// The pages that the section of a directory lists.
pub fn section_pages<'a>(docs: &'a Vec<MdFile>) -> (r: Vec<Page<'a>>)
    ensures
        r@.len() == listed(docs@).len(),
        forall|j: int| 0 <= j < r@.len() ==> shows(#[trigger] r@[j], listed(docs@)[j]),
{
    let mut pages: Vec<Page<'a>> = Vec::new();
    let mut i: usize = 0;
    while i < docs.len()
        invariant
            i <= docs.len(),
            pages@.len() == listed(docs@.take(i as int)).len(),
            forall|j: int|
                0 <= j < pages@.len() ==> shows(
                    #[trigger] pages@[j],
                    listed(docs@.take(i as int))[j],
                ),
        decreases docs.len() - i,
    {
        proof {
            assert(docs@.take(i + 1).drop_last() == docs@.take(i as int));
            assert(docs@.take(i + 1).last() == docs@[i as int]);
        }
        if !docs[i].is_section {
            pages.push(Page::new(&docs[i]));
        }
        i += 1;
    }
    assert(docs@.take(docs@.len() as int) == docs@);
    pages
}

} // verus!
