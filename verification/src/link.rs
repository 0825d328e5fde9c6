//! Links: what a document points at, and what the site records about it.

use vstd::prelude::*;
use crate::markdown::{image_start, link_start, make_image, make_link, shape, Mark, Shape};
use crate::md_file::MdFile;
use crate::path::{path_with_extension, with_extension};
use crate::site::{with_baseurl, Site};
use crate::slug::{slug_of, slugify};
use crate::text::{
    chars_of, clone_opt, join, join_with, opt_view, replace, replace_all, split, split_on,
    starts_with, str_starts_with, string_of, views,
};
use pulldown_cmark::Event;

verus! {

/// What a link record stands for.
#[derive(Debug, PartialEq, Eq, PartialOrd, Ord)]
pub enum EskerLinkType {
    Default,
    Toc { heading_level: u8 },
    Backlink,
    RelatedLink,
    Tag,
    TaggedItem { date_created: String },
    Sitemap { date_created_timestamp: i64 },
}

/// The mathematical value of an [`EskerLinkType`].
pub enum LinkKind {
    Default,
    Toc { heading_level: u8 },
    Backlink,
    RelatedLink,
    Tag,
    TaggedItem { date_created: Seq<char> },
    Sitemap { date_created_timestamp: i64 },
}

impl View for EskerLinkType {
    type V = LinkKind;

    open spec fn view(&self) -> LinkKind {
        match *self {
            EskerLinkType::Default => LinkKind::Default,
            EskerLinkType::Toc { heading_level } => LinkKind::Toc { heading_level },
            EskerLinkType::Backlink => LinkKind::Backlink,
            EskerLinkType::RelatedLink => LinkKind::RelatedLink,
            EskerLinkType::Tag => LinkKind::Tag,
            EskerLinkType::TaggedItem { date_created } => LinkKind::TaggedItem {
                date_created: date_created@,
            },
            EskerLinkType::Sitemap { date_created_timestamp } => LinkKind::Sitemap {
                date_created_timestamp,
            },
        }
    }
}

impl Clone for EskerLinkType {
    fn clone(&self) -> (r: Self)
        ensures
            r@ == self@,
    {
        match self {
            EskerLinkType::Default => EskerLinkType::Default,
            EskerLinkType::Toc { heading_level } => EskerLinkType::Toc {
                heading_level: *heading_level,
            },
            EskerLinkType::Backlink => EskerLinkType::Backlink,
            EskerLinkType::RelatedLink => EskerLinkType::RelatedLink,
            EskerLinkType::Tag => EskerLinkType::Tag,
            EskerLinkType::TaggedItem { date_created } => EskerLinkType::TaggedItem {
                date_created: date_created.clone(),
            },
            EskerLinkType::Sitemap { date_created_timestamp } => EskerLinkType::Sitemap {
                date_created_timestamp: *date_created_timestamp,
            },
        }
    }
}

/// A link found in a document, or made for a listing of the site.
#[derive(Debug, PartialEq, Eq, PartialOrd, Ord)]
pub struct Link {
    pub url: String,
    pub is_internal: bool,
    pub title: String,
    pub originating_file_title: Option<String>,
    pub originating_file_url: Option<String>,
    pub link_type: EskerLinkType,
}

/// The mathematical value of a [`Link`].
pub struct LinkView {
    pub url: Seq<char>,
    pub is_internal: bool,
    pub title: Seq<char>,
    pub originating_file_title: Option<Seq<char>>,
    pub originating_file_url: Option<Seq<char>>,
    pub link_type: LinkKind,
}

impl View for Link {
    type V = LinkView;

    open spec fn view(&self) -> LinkView {
        LinkView {
            url: self.url@,
            is_internal: self.is_internal,
            title: self.title@,
            originating_file_title: opt_view(self.originating_file_title),
            originating_file_url: opt_view(self.originating_file_url),
            link_type: self.link_type@,
        }
    }
}

/// The views of a list of links.
pub open spec fn link_views(links: Seq<Link>) -> Seq<LinkView> {
    links.map_values(|l: Link| l@)
}

impl Clone for Link {
    fn clone(&self) -> (r: Self)
        ensures
            r@ == self@,
    {
        Link {
            url: self.url.clone(),
            is_internal: self.is_internal,
            title: self.title.clone(),
            originating_file_title: clone_opt(&self.originating_file_title),
            originating_file_url: clone_opt(&self.originating_file_url),
            link_type: self.link_type.clone(),
        }
    }
}

/// The links that the documents of a site hold, by where they lead.
#[derive(Debug)]
pub struct SiteLinks {
    pub external: Vec<Link>,
    pub internal: Vec<Link>,
}

impl SiteLinks {
    pub fn new() -> (r: SiteLinks)
        ensures
            r.external@.len() == 0,
            r.internal@.len() == 0,
    {
        SiteLinks { external: Vec::new(), internal: Vec::new() }
    }
}

/// A target is external when it names a web address outright.
pub open spec fn external_target(url: Seq<char>) -> bool {
    starts_with(url, "http://"@) || starts_with(url, "https://"@) || starts_with(url, "www."@)
}

/// A target is a mail address when it starts with `mailto:`.
pub open spec fn mailto_target(url: Seq<char>) -> bool {
    starts_with(url, "mailto:"@)
}

/// A target is internal when it is neither a web address nor a mail address:
/// it then names a document or a file of the site.
pub open spec fn internal_link(url: Seq<char>) -> bool {
    !(external_target(url) || mailto_target(url))
}

impl Link {
    /// A link that leads nowhere yet.
    pub fn empty() -> (r: Link)
        ensures
            r@ == (LinkView {
                url: Seq::empty(),
                is_internal: false,
                title: Seq::empty(),
                originating_file_title: None,
                originating_file_url: None,
                link_type: LinkKind::Default,
            }),
    {
        Link {
            url: String::new(),
            is_internal: false,
            title: String::new(),
            originating_file_url: None,
            originating_file_title: None,
            link_type: EskerLinkType::Default,
        }
    }

    /// Whether a target names something of the site: it is neither a web
    /// address nor a mail address.
    pub fn is_internal(url: &str) -> (r: bool)
        ensures
            r == internal_link(url@),
    {
        !(Self::is_external(url) || Self::is_mailto(url))
    }

    pub fn is_mailto(url: &str) -> (r: bool)
        ensures
            r == mailto_target(url@),
    {
        str_starts_with(url, "mailto:")
    }

    pub fn is_external(url: &str) -> (r: bool)
        ensures
            r == external_target(url@),
    {
        str_starts_with(url, "http://") || str_starts_with(url, "https://") || str_starts_with(
            url,
            "www.",
        )
    }

    /// No link counts as an attachment.
    pub fn is_attachment() -> (r: bool)
        ensures
            !r,
    {
        false
    }

    /// The entry of a document in the list of a tag that it carries.
    pub fn new_tag_link_from_md_file(md_file: &MdFile) -> (r: Link)
        ensures
            r@ == tag_entry(md_file.full_url@, md_file.frontmatter.title@, md_file.frontmatter.date_created.text@),
    {
        Link {
            url: md_file.full_url.clone(),
            is_internal: true,
            title: md_file.frontmatter.title.clone(),
            originating_file_title: None,
            originating_file_url: None,
            link_type: EskerLinkType::TaggedItem {
                date_created: md_file.frontmatter.date_created.text.clone(),
            },
        }
    }

    /// The entry of a document in the sitemap.
    pub fn new_sitemap_link(md_file: &MdFile) -> (r: Link)
        ensures
            r@ == sitemap_entry(
                md_file.full_url@,
                md_file.frontmatter.title@,
                md_file.frontmatter.date_created.timestamp,
            ),
    {
        Link {
            url: md_file.full_url.clone(),
            is_internal: true,
            title: md_file.frontmatter.title.clone(),
            originating_file_title: None,
            originating_file_url: None,
            link_type: EskerLinkType::Sitemap {
                date_created_timestamp: md_file.frontmatter.date_created.timestamp,
            },
        }
    }

    /// Fills the record from the link that a document opens: where the link
    /// leads once the site is built, and which document it stands in. A
    /// target in the site is led to its page; a web address or a mail
    /// address stays as it is and is no link into the site. The title is the
    /// one that the link itself carries; the text of the link replaces it
    /// when it comes.
    pub fn fill_from_parser(
        &mut self,
        tag: &Mark,
        site: &Site,
        originating_url: Option<String>,
        originating_title: Option<String>,
    )
        requires
            tag is Link,
        ensures
            final(self)@ == (LinkView {
                url: link_url(site.config.url@, tag->Link_url@),
                is_internal: internal_link(tag->Link_url@),
                title: tag->Link_title@,
                originating_file_title: opt_view(originating_title),
                originating_file_url: opt_view(originating_url),
                link_type: old(self).link_type@,
            }),
    {
        match tag {
            Mark::Link { url, title } => {
                if Self::is_internal(url.as_str()) {
                    let slugged = Self::slugify_internal_url(url.clone());
                    let page = path_with_extension(&chars_of(slugged.as_str()), &chars_of("html"));
                    self.url = site.build_with_baseurl(string_of(&page));
                    self.is_internal = true;
                } else {
                    self.url = url.clone();
                    self.is_internal = false;
                }
                self.title = title.clone();
                self.originating_file_title = originating_title;
                self.originating_file_url = originating_url;
            },
            _ => {},
        }
    }

    /// The event that opens this link in the page. Its title is the address
    /// of the link seen from the base URL once more.
    pub fn for_parser<'a>(&self, site: &Site) -> (r: Event<'a>)
        ensures
            r == link_start(self.url@, with_baseurl(site.config.url@, self.url@)),
            shape(r) == (Shape::LinkOpen {
                url: self.url@,
                title: with_baseurl(site.config.url@, self.url@),
            }),
    {
        let title = site.build_with_baseurl(self.url.clone());
        make_link(self.url.clone(), title)
    }

    /// A link target made of slugs: each part between slashes loses its
    /// extension, has `%20` read as a hyphen, and is turned into a slug.
    pub fn slugify_internal_url(url: String) -> (r: String)
        ensures
            r@ == slugged_target(url@),
    {
        let chars = chars_of(url.as_str());
        let chunks = split(&chars, '/');
        let encoded = chars_of("%20");
        let hyphen = chars_of("-");
        let none: Vec<char> = Vec::new();
        let ghost wanted = split_on(url@, '/').map_values(|c: Seq<char>| slug_chunk(c));
        let mut slugs: Vec<Vec<char>> = Vec::new();
        let mut i: usize = 0;
        while i < chunks.len()
            invariant
                i <= chunks.len(),
                views(chunks@) == split_on(url@, '/'),
                encoded@ == "%20"@,
                hyphen@ == "-"@,
                none@.len() == 0,
                wanted == split_on(url@, '/').map_values(|c: Seq<char>| slug_chunk(c)),
                views(slugs@) == wanted.take(i as int),
            decreases chunks.len() - i,
        {
            let bare = path_with_extension(&chunks[i], &none);
            let spaced = replace(&bare, &encoded, &hyphen);
            let slug = chars_of(slugify(string_of(&spaced).as_str()).as_str());
            proof {
                assert(views(chunks@)[i as int] == chunks@[i as int]@);
                assert(none@ == Seq::<char>::empty());
                assert(slug@ == slug_chunk(chunks@[i as int]@));
                assert(views(slugs@.push(slug)) == views(slugs@).push(slug@));
                assert(wanted.take(i + 1) == wanted.take(i as int).push(wanted[i as int]));
            }
            slugs.push(slug);
            i += 1;
        }
        assert(wanted.take(wanted.len() as int) == wanted);
        let sep = chars_of("/");
        string_of(&join(&slugs, &sep))
    }

    /// The event that opens an image, led to the site where the image is one
    /// of the site's own. `url` is the target of the image in `image`.
    pub fn update_img_link<'a>(image: &Event<'a>, url: &str, site: &Site) -> (r: Event<'a>)
        ensures
            r == image_event(site.config.url@, *image, url@),
            shape(*image) is ImageOpen ==> shape(r) == (Shape::ImageOpen {
                url: image_url(site.config.url@, url@),
            }),
            !(shape(*image) is ImageOpen) ==> shape(r) == shape(*image),
    {
        if Self::is_internal(url) {
            let target = site.build_with_baseurl(url.to_owned());
            make_image(image, target)
        } else {
            make_image(image, url.to_owned())
        }
    }
}

/// The entry of a document in the list of a tag.
pub open spec fn tag_entry(url: Seq<char>, title: Seq<char>, date: Seq<char>) -> LinkView {
    LinkView {
        url,
        is_internal: true,
        title,
        originating_file_title: None,
        originating_file_url: None,
        link_type: LinkKind::TaggedItem { date_created: date },
    }
}

/// The entry of a document in the sitemap.
pub open spec fn sitemap_entry(url: Seq<char>, title: Seq<char>, timestamp: i64) -> LinkView {
    LinkView {
        url,
        is_internal: true,
        title,
        originating_file_title: None,
        originating_file_url: None,
        link_type: LinkKind::Sitemap { date_created_timestamp: timestamp },
    }
}

/// One part of a link target as a slug: without its extension, `%20` read as
/// a hyphen.
pub open spec fn slug_chunk(chunk: Seq<char>) -> Seq<char> {
    slug_of(replace_all(with_extension(chunk, Seq::empty()), "%20"@, "-"@))
}

/// A link target made of slugs, part by part.
pub open spec fn slugged_target(url: Seq<char>) -> Seq<char> {
    join_with(split_on(url, '/').map_values(|c: Seq<char>| slug_chunk(c)), "/"@)
}

/// Where a link to one of the site's own documents leads: to the page of
/// that document, below the base URL.
pub open spec fn internal_target(base: Seq<char>, url: Seq<char>) -> Seq<char> {
    with_baseurl(base, with_extension(slugged_target(url), "html"@))
}

/// Where a link leads once the site is built. Web addresses and mail
/// addresses stay as they are.
pub open spec fn link_url(base: Seq<char>, url: Seq<char>) -> Seq<char> {
    if internal_link(url) {
        internal_target(base, url)
    } else {
        url
    }
}

/// Where an image is looked for once the site is built: one of the site's
/// own below the base URL, its path unchanged; any other where it was.
pub open spec fn image_url(base: Seq<char>, url: Seq<char>) -> Seq<char> {
    if internal_link(url) {
        with_baseurl(base, url)
    } else {
        url
    }
}

/// The event that opens an image once the site is built.
pub open spec fn image_event(base: Seq<char>, image: Event<'static>, url: Seq<char>) -> Event<
    'static,
> {
    image_start(image, image_url(base, url))
}

} // verus!
