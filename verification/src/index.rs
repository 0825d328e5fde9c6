//! The index of the site: the table of tags and the names for short
//! references. Each list of either keeps the order in which documents were
//! entered.

use vstd::prelude::*;
use crate::frontmatter::contains_text;
use crate::link::{link_views, tag_entry, Link, LinkView};
use crate::md_file::MdFile;
use crate::path::{join_paths, path_join};
use crate::site::Site;
use crate::table::Table;
use crate::text::{chars_of, opt_view, string_of, string_views};

verus! {

/// The list of one tag after a document was entered: `entry` is added once
/// for each time that the document names the tag.
pub open spec fn with_entries(
    list: Seq<LinkView>,
    tag: Seq<char>,
    tags: Seq<Seq<char>>,
    entry: LinkView,
) -> Seq<LinkView>
    decreases tags.len(),
{
    if tags.len() == 0 {
        list
    } else {
        let before = with_entries(list, tag, tags.drop_last(), entry);
        if tags.last() == tag {
            before.push(entry)
        } else {
            before
        }
    }
}

/// The path by which a document is referred to: its directory seen from the
/// site, and its name without the extension.
pub open spec fn reference_path(parents: Seq<char>, stem: Seq<char>) -> Seq<char> {
    join_paths(parents, stem)
}

/// The paths registered under the name `key` after a document was
/// registered: the path of the document is added under that path and under
/// the name of the document, unless it is there already.
pub open spec fn registered(
    list: Seq<Seq<char>>,
    key: Seq<char>,
    path: Seq<char>,
    stem: Seq<char>,
) -> Seq<Seq<char>> {
    if (key == path || key == stem) && !list.contains(path) {
        list.push(path)
    } else {
        list
    }
}

/// The path that was registered first under `name`.
pub open spec fn first_candidate(sitemap: Table<Vec<String>>, name: Seq<char>) -> Option<Seq<char>> {
    if sitemap.list(name).len() > 0 {
        Some(sitemap.list(name)[0]@)
    } else {
        None
    }
}

impl Site {
    /// What a short reference to `k` means: the path that was registered
    /// first under that name.
    pub fn get_item_from_flat_sitemap(&self, k: String) -> (r: Option<String>)
        requires
            self.wf(),
        ensures
            opt_view(r) == first_candidate(self.flat_sitemap, k@),
    {
        match self.flat_sitemap.find(k.as_str()) {
            Some(at) => {
                let possible_md_paths = &self.flat_sitemap.values[at];
                if possible_md_paths.len() > 0 {
                    Some(possible_md_paths[0].clone())
                } else {
                    None
                }
            },
            None => None,
        }
    }

    /// Enters a document into the lists of the tags that it carries.
    pub fn collect_tags_from_frontmatter(&mut self, md_file: &MdFile)
        requires
            old(self).wf(),
        ensures
            final(self).wf(),
            forall|tag: Seq<char>|
                #![trigger final(self).tags.list(tag)]
                link_views(final(self).tags.list(tag)) == with_entries(
                    link_views(old(self).tags.list(tag)),
                    tag,
                    string_views(md_file.frontmatter.tags@),
                    tag_entry(
                        md_file.full_url@,
                        md_file.frontmatter.title@,
                        md_file.frontmatter.date_created.text@,
                    ),
                ),
            final(self).same_but_tags(*old(self)),
    {
        let ghost tags = string_views(md_file.frontmatter.tags@);
        let ghost entry = tag_entry(
            md_file.full_url@,
            md_file.frontmatter.title@,
            md_file.frontmatter.date_created.text@,
        );
        let mut i: usize = 0;
        while i < md_file.frontmatter.tags.len()
            invariant
                i <= md_file.frontmatter.tags.len(),
                self.wf(),
                self.same_but_tags(*old(self)),
                tags == string_views(md_file.frontmatter.tags@),
                entry == tag_entry(
                    md_file.full_url@,
                    md_file.frontmatter.title@,
                    md_file.frontmatter.date_created.text@,
                ),
                forall|tag: Seq<char>|
                    #![trigger self.tags.list(tag)]
                    link_views(self.tags.list(tag)) == with_entries(
                        link_views(old(self).tags.list(tag)),
                        tag,
                        tags.take(i as int),
                        entry,
                    ),
            decreases md_file.frontmatter.tags.len() - i,
        {
            let tag = &md_file.frontmatter.tags[i];
            let new_tag_link = Link::new_tag_link_from_md_file(md_file);
            let ghost before = self.tags;
            self.tags.push_to(tag.as_str(), new_tag_link);
            proof {
                assert(tags[i as int] == tag@);
                assert(tags.take(i + 1).drop_last() == tags.take(i as int));
                assert(tags.take(i + 1).last() == tag@);
                assert forall|t: Seq<char>|
                    #![trigger self.tags.list(t)]
                    link_views(self.tags.list(t)) == with_entries(
                        link_views(old(self).tags.list(t)),
                        t,
                        tags.take(i + 1),
                        entry,
                    ) by {
                    if t == tag@ {
                        assert(link_views(before.list(t).push(new_tag_link)) == link_views(
                            before.list(t),
                        ).push(new_tag_link@));
                    } else {
                        assert(self.tags.list(t) == before.list(t));
                    }
                }
            }
            i += 1;
        }
        assert(tags.take(tags.len() as int) == tags);
    }

    /// Registers a document under its path and under its name, so that short
    /// references to either can be resolved. A path that is registered under
    /// a name already is not registered again.
    pub fn collect_flat_sitemap(md_file: &MdFile, flat_sitemap: &mut Table<Vec<String>>)
        requires
            old(flat_sitemap).wf(),
        ensures
            final(flat_sitemap).wf(),
            forall|k: Seq<char>|
                #![trigger final(flat_sitemap).list(k)]
                string_views(final(flat_sitemap).list(k)) == registered(
                    string_views(old(flat_sitemap).list(k)),
                    k,
                    reference_path(md_file.web_path_parents@, md_file.file_name_without_extension@),
                    md_file.file_name_without_extension@,
                ),
    {
        let rel = path_join(
            &chars_of(md_file.web_path_parents.as_str()),
            &chars_of(md_file.file_name_without_extension.as_str()),
        );
        let md_rel_path_link_str = string_of(&rel);
        let ghost first = *flat_sitemap;
        if !Self::is_registered(flat_sitemap, md_rel_path_link_str.as_str(), &rel) {
            proof {
                assert(string_views(first.list(rel@).push(md_rel_path_link_str)) == string_views(
                    first.list(rel@),
                ).push(rel@));
            }
            flat_sitemap.push_to(md_rel_path_link_str.as_str(), md_rel_path_link_str.clone());
        }
        let ghost second = *flat_sitemap;
        let file_stem = md_file.file_name_without_extension.clone();
        if !Self::is_registered(flat_sitemap, file_stem.as_str(), &rel) {
            proof {
                assert(string_views(second.list(file_stem@).push(md_rel_path_link_str))
                    == string_views(second.list(file_stem@)).push(rel@));
            }
            flat_sitemap.push_to(file_stem.as_str(), md_rel_path_link_str);
        }
        proof {
            assert forall|k: Seq<char>|
                #![trigger flat_sitemap.list(k)]
                string_views(flat_sitemap.list(k)) == registered(
                    string_views(first.list(k)),
                    k,
                    rel@,
                    md_file.file_name_without_extension@,
                ) by {
                let stem = md_file.file_name_without_extension@;
                let before = string_views(first.list(k));
                assert(k != rel@ ==> second.list(k) == first.list(k));
                assert(k != stem ==> flat_sitemap.list(k) == second.list(k));
                if k == rel@ && !before.contains(rel@) {
                    assert(string_views(second.list(k)) == before.push(rel@));
                    assert(before.push(rel@)[before.len() as int] == rel@);
                    assert(string_views(second.list(k)).contains(rel@));
                }
            }
        }
    }

    /// Whether `path` is among the paths registered under `key`.
    fn is_registered(flat_sitemap: &Table<Vec<String>>, key: &str, path: &Vec<char>) -> (r: bool)
        requires
            flat_sitemap.wf(),
        ensures
            r == string_views(flat_sitemap.list(key@)).contains(path@),
    {
        match flat_sitemap.find(key) {
            Some(at) => contains_text(&flat_sitemap.values[at], path),
            None => {
                assert(string_views(flat_sitemap.list(key@)) =~= Seq::<Seq<char>>::empty());
                false
            },
        }
    }
}

} // verus!
