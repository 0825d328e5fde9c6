//! The metadata block at the start of a document.
//!
//! The block starts with a line `---` and ends with the next such line. Each
//! line between them that holds a colon gives one field its value.

use vstd::prelude::*;
use crate::dates::{
    formatted_date, full_form, match_possible_dates, minute_form, recognized_date, Moment,
};
use crate::errors::{clone_strings, DateField};
use crate::path::{chars_eq, file_stem, path_file_stem};
use crate::site::Site;
use crate::text::{
    chars_of, clone_opt, first_index_of, index_of, lines_in, lines_of, opt_view, slice_of, split,
    split_on, string_of, string_views, trim, trim_chars, views,
};

verus! {

/// What a document says about itself.
#[derive(Debug)]
pub struct Frontmatter {
    pub title: String,
    pub filepath: String,
    pub summary: Option<String>,
    pub tags: Vec<String>,
    pub publish: bool,
    pub date_created: Moment,
    pub date_updated: Moment,
    /// Whether the last `date_created` line, if there was one, named a date.
    pub date_created_valid: bool,
    /// Whether the last `date_updated` line, if there was one, named a date.
    pub date_updated_valid: bool,
    pub template: String,
    pub in_sitemap: bool,
}

/// The mathematical value of a [`Frontmatter`].
pub struct FrontmatterView {
    pub title: Seq<char>,
    pub filepath: Seq<char>,
    pub summary: Option<Seq<char>>,
    pub tags: Seq<Seq<char>>,
    pub publish: bool,
    pub date_created: (i64, u32),
    pub date_updated: (i64, u32),
    pub date_created_valid: bool,
    pub date_updated_valid: bool,
    pub template: Seq<char>,
    pub in_sitemap: bool,
}

impl View for Frontmatter {
    type V = FrontmatterView;

    open spec fn view(&self) -> FrontmatterView {
        FrontmatterView {
            title: self.title@,
            filepath: self.filepath@,
            summary: opt_view(self.summary),
            tags: string_views(self.tags@),
            publish: self.publish,
            date_created: (self.date_created.timestamp, self.date_created.nanos),
            date_updated: (self.date_updated.timestamp, self.date_updated.nanos),
            date_created_valid: self.date_created_valid,
            date_updated_valid: self.date_updated_valid,
            template: self.template@,
            in_sitemap: self.in_sitemap,
        }
    }
}

/// The line that opens and closes the block.
pub open spec fn fence() -> Seq<char> {
    "---"@
}

/// The name and the value of a line: what stands before its first colon and
/// what stands behind it, both without the white space around them.
pub open spec fn key_value(line: Seq<char>) -> Option<(Seq<char>, Seq<char>)> {
    let i = first_index_of(line, ':');
    if i < line.len() {
        Some((trim(line.take(i)), trim(line.skip(i + 1))))
    } else {
        None
    }
}

/// The items of `items` in their order, each only where it stands first.
pub open spec fn without_repeats(items: Seq<Seq<char>>) -> Seq<Seq<char>>
    decreases items.len(),
{
    if items.len() == 0 {
        Seq::empty()
    } else {
        let rest = without_repeats(items.drop_last());
        if rest.contains(items.last()) {
            rest
        } else {
            rest.push(items.last())
        }
    }
}

/// The tags that a value names: its pieces between commas, trimmed, none of
/// them twice.
pub open spec fn tag_list(value: Seq<char>) -> Seq<Seq<char>> {
    without_repeats(split_on(value, ',').map_values(|t: Seq<char>| trim(t)))
}

/// The date that a value names, where it names one that can be shown.
pub open spec fn readable_date(value: Seq<char>) -> Option<(i64, u32)> {
    match recognized_date(value) {
        Some(found) => if formatted_date(found.0, found.1, full_form()) is Some
            && formatted_date(found.0, found.1, minute_form()) is Some {
            Some(found)
        } else {
            None
        },
        None => None,
    }
}

/// The metadata after one more line of the block. A line without a colon, or
/// with a name that is none of the known ones, changes nothing. A date that
/// cannot be read leaves the date as it was and marks the field.
pub open spec fn apply_line(fm: FrontmatterView, line: Seq<char>) -> FrontmatterView {
    match key_value(line) {
        None => fm,
        Some((key, value)) => {
            if key == "title"@ {
                FrontmatterView { title: value, ..fm }
            } else if key == "date_created"@ {
                match readable_date(value) {
                    Some(found) => FrontmatterView {
                        date_created: found,
                        date_created_valid: true,
                        ..fm
                    },
                    None => FrontmatterView { date_created_valid: false, ..fm },
                }
            } else if key == "date_updated"@ {
                match readable_date(value) {
                    Some(found) => FrontmatterView {
                        date_updated: found,
                        date_updated_valid: true,
                        ..fm
                    },
                    None => FrontmatterView { date_updated_valid: false, ..fm },
                }
            } else if key == "summary"@ {
                FrontmatterView { summary: Some(value), ..fm }
            } else if key == "template"@ {
                FrontmatterView { template: value, ..fm }
            } else if key == "publish"@ {
                FrontmatterView { publish: value != "false"@, ..fm }
            } else if key == "tag"@ || key == "tags"@ {
                FrontmatterView { tags: tag_list(value), ..fm }
            } else {
                fm
            }
        },
    }
}

/// The name of a date field.
pub open spec fn field_name(field: DateField) -> Seq<char> {
    match field {
        DateField::Created => "date_created"@,
        DateField::Updated => "date_updated"@,
    }
}

/// Whether a line gives the date field `field` a value that is no date.
pub open spec fn bad_date(line: Seq<char>, field: DateField) -> bool {
    key_value(line) matches Some((key, value)) && key == field_name(field) && readable_date(value)
        is None
}

/// The lines of the block: those before the first fence in `lines`.
pub open spec fn block_of(lines: Seq<Seq<char>>) -> Seq<Seq<char>>
    decreases lines.len(),
{
    if lines.len() == 0 || lines[0] == fence() {
        Seq::empty()
    } else {
        seq![lines[0]] + block_of(lines.skip(1))
    }
}

/// The metadata after all of `lines`, one after the other.
pub open spec fn apply_lines(fm: FrontmatterView, lines: Seq<Seq<char>>) -> FrontmatterView
    decreases lines.len(),
{
    if lines.len() == 0 {
        fm
    } else {
        apply_line(apply_lines(fm, lines.drop_last()), lines.last())
    }
}

/// `errors` with `path` added once for each line of `lines` that gives the
/// date field `field` a value that is no date.
pub open spec fn with_failures(
    errors: Seq<Seq<char>>,
    path: Seq<char>,
    lines: Seq<Seq<char>>,
    field: DateField,
) -> Seq<Seq<char>>
    decreases lines.len(),
{
    if lines.len() == 0 {
        errors
    } else {
        let before = with_failures(errors, path, lines.drop_last(), field);
        if bad_date(lines.last(), field) {
            before.push(path)
        } else {
            before
        }
    }
}

/// Whether a document starts as one must: its first line is the fence. An
/// empty document does not.
pub open spec fn has_frontmatter(lines: Seq<Seq<char>>) -> bool {
    lines.len() > 0 && lines[0] == fence()
}

/// The lines between the opening fence and the closing one.
pub open spec fn frontmatter_block(lines: Seq<Seq<char>>) -> Seq<Seq<char>> {
    if lines.len() == 0 {
        Seq::empty()
    } else {
        block_of(lines.skip(1))
    }
}

/// The metadata of a document before its block is read: titled after its
/// file, published, dated by the file system.
pub open spec fn defaults(path: Seq<char>, created: Moment, updated: Moment) -> FrontmatterView {
    FrontmatterView {
        title: file_stem(path)->0,
        filepath: path,
        summary: None,
        tags: Seq::empty(),
        publish: true,
        date_created: (created.timestamp, created.nanos),
        date_updated: (updated.timestamp, updated.nanos),
        date_created_valid: true,
        date_updated_valid: true,
        template: Seq::empty(),
        in_sitemap: true,
    }
}

/// Whether `item` is among `items`.
pub fn contains_text(items: &Vec<String>, item: &Vec<char>) -> (r: bool)
    ensures
        r == string_views(items@).contains(item@),
{
    let mut i: usize = 0;
    while i < items.len()
        invariant
            i <= items.len(),
            forall|j: int| 0 <= j < i ==> string_views(items@)[j] != item@,
        decreases items.len() - i,
    {
        let other = chars_of(items[i].as_str());
        if chars_eq(&other, item) {
            assert(string_views(items@)[i as int] == item@);
            return true;
        }
        i += 1;
    }
    false
}

/// The tags that a value names.
pub fn tags_of(value: &Vec<char>) -> (r: Vec<String>)
    ensures
        string_views(r@) == tag_list(value@),
{
    let pieces = split(value, ',');
    let ghost trimmed = split_on(value@, ',').map_values(|t: Seq<char>| trim(t));
    let mut out: Vec<String> = Vec::new();
    let mut i: usize = 0;
    while i < pieces.len()
        invariant
            i <= pieces.len(),
            views(pieces@) == split_on(value@, ','),
            trimmed == split_on(value@, ',').map_values(|t: Seq<char>| trim(t)),
            string_views(out@) == without_repeats(trimmed.take(i as int)),
        decreases pieces.len() - i,
    {
        let tag = trim_chars(&pieces[i]);
        proof {
            assert(views(pieces@)[i as int] == pieces@[i as int]@);
            assert(trimmed[i as int] == tag@);
            assert(trimmed.take(i + 1).drop_last() == trimmed.take(i as int));
            assert(trimmed.take(i + 1).last() == tag@);
        }
        if !contains_text(&out, &tag) {
            let s = string_of(&tag);
            assert(string_views(out@.push(s)) == string_views(out@).push(s@));
            out.push(s);
        }
        i += 1;
    }
    assert(trimmed.take(trimmed.len() as int) == trimmed);
    out
}

impl Frontmatter {
    /// Both dates can be shown.
    pub open spec fn wf(&self) -> bool {
        self.date_created.wf() && self.date_updated.wf()
    }

    /// Reads the frontmatter of the document at `md_file_path`, whose text is
    /// `content` and which the file system dates `created` and `updated`.
    /// A document that does not start with the fence has none, and neither
    /// has an empty one; nothing is recorded for it. Date fields that cannot
    /// be read are recorded with the site's errors.
    pub fn new(
        site: &mut Site,
        md_file_path: &str,
        content: &str,
        created: Moment,
        updated: Moment,
    ) -> (r: Option<Frontmatter>)
        requires
            file_stem(md_file_path@) is Some,
            created.wf(),
            updated.wf(),
        ensures
            r is Some == has_frontmatter(lines_in(content@)),
            r matches Some(fm) ==> fm.wf() && fm@ == apply_lines(
                defaults(md_file_path@, created, updated),
                frontmatter_block(lines_in(content@)),
            ),
            has_frontmatter(lines_in(content@)) ==> {
                &&& string_views(final(site).errors.invalid_date_created@) == with_failures(
                    string_views(old(site).errors.invalid_date_created@),
                    md_file_path@,
                    frontmatter_block(lines_in(content@)),
                    DateField::Created,
                )
                &&& string_views(final(site).errors.invalid_date_updated@) == with_failures(
                    string_views(old(site).errors.invalid_date_updated@),
                    md_file_path@,
                    frontmatter_block(lines_in(content@)),
                    DateField::Updated,
                )
            },
            !has_frontmatter(lines_in(content@)) ==> final(site).errors == old(site).errors,
            final(site).errors.warnings == old(site).errors.warnings,
            final(site).same_but_errors(*old(site)),
    {
        let path = chars_of(md_file_path);
        let title = match path_file_stem(&path) {
            Some(stem) => string_of(&stem),
            None => String::new(),
        };
        let mut fm = Frontmatter {
            title,
            filepath: string_of(&path),
            summary: None,
            tags: Vec::new(),
            publish: true,
            date_created: created,
            date_updated: updated,
            date_created_valid: true,
            date_updated_valid: true,
            template: String::new(),
            in_sitemap: true,
        };
        proof {
            assert(fm@.tags =~= Seq::<Seq<char>>::empty());
            assert(fm@ == defaults(md_file_path@, created, updated));
        }
        let text = chars_of(content);
        let lines = lines_of(&text);
        if lines.len() == 0 {
            return None;
        }
        let marker = chars_of("---");
        assert(views(lines@)[0] == lines@[0]@);
        if !chars_eq(&lines[0], &marker) {
            return None;
        }
        let ghost rest = lines_in(content@).skip(1);
        let ghost start = fm@;
        let ghost created_before = string_views(site.errors.invalid_date_created@);
        let ghost updated_before = string_views(site.errors.invalid_date_updated@);
        let ghost mut done: Seq<Seq<char>> = Seq::empty();
        let mut i: usize = 1;
        proof {
            assert(rest.skip(0) == rest);
            assert(done + block_of(rest) == block_of(rest));
        }
        loop
            invariant_except_break
                1 <= i <= lines.len(),
                reading(done, rest, i - 1),
                fm@ == apply_lines(start, done),
                string_views(site.errors.invalid_date_created@) == with_failures(
                    created_before,
                    md_file_path@,
                    done,
                    DateField::Created,
                ),
                string_views(site.errors.invalid_date_updated@) == with_failures(
                    updated_before,
                    md_file_path@,
                    done,
                    DateField::Updated,
                ),
            invariant
                views(lines@) == lines_in(content@),
                rest == lines_in(content@).skip(1),
                marker@ == fence(),
                fm.wf(),
                fm.filepath@ == md_file_path@,
                site.same_but_errors(*old(site)),
                site.errors.warnings == old(site).errors.warnings,
            ensures
                fm@ == apply_lines(start, block_of(rest)),
                string_views(site.errors.invalid_date_created@) == with_failures(
                    created_before,
                    md_file_path@,
                    block_of(rest),
                    DateField::Created,
                ),
                string_views(site.errors.invalid_date_updated@) == with_failures(
                    updated_before,
                    md_file_path@,
                    block_of(rest),
                    DateField::Updated,
                ),
            decreases lines.len() - i,
        {
            let ghost tail = rest.skip(i - 1);
            if i >= lines.len() {
                proof {
                    assert(tail.len() == 0);
                    assert(done + block_of(tail) == done);
                }
                break ;
            }
            proof {
                assert(views(lines@)[i as int] == lines@[i as int]@);
                assert(tail[0] == lines@[i as int]@);
                assert(tail.skip(1) == rest.skip(i as int));
            }
            if chars_eq(&lines[i], &marker) {
                proof {
                    assert(block_of(tail) == Seq::<Seq<char>>::empty());
                    assert(done + block_of(tail) == done);
                }
                break ;
            }
            let line = string_of(&lines[i]);
            fm.get_key_value_from_line(line.as_str(), site);
            proof {
                let next = done.push(lines@[i as int]@);
                assert(next.drop_last() == done);
                assert(next.last() == lines@[i as int]@);
                assert(done + (seq![tail[0]] + block_of(tail.skip(1))) == next + block_of(
                    rest.skip(i as int),
                ));
                done = next;
            }
            i += 1;
        }
        Some(fm)
    }

    /// Gives one field the value that a line of the block names.
    pub fn get_key_value_from_line(&mut self, line: &str, site: &mut Site)
        requires
            old(self).wf(),
        ensures
            final(self).wf(),
            final(self)@ == apply_line(old(self)@, line@),
            string_views(final(site).errors.invalid_date_created@) == (if bad_date(line@, DateField::Created) {
                string_views(old(site).errors.invalid_date_created@).push(old(self).filepath@)
            } else {
                string_views(old(site).errors.invalid_date_created@)
            }),
            string_views(final(site).errors.invalid_date_updated@) == (if bad_date(line@, DateField::Updated) {
                string_views(old(site).errors.invalid_date_updated@).push(old(self).filepath@)
            } else {
                string_views(old(site).errors.invalid_date_updated@)
            }),
            final(site).errors.warnings == old(site).errors.warnings,
            final(site).same_but_errors(*old(site)),
    {
        proof {
            lemma_names_differ();
        }
        let chars = chars_of(line);
        let at = index_of(&chars, ':');
        if at >= chars.len() {
            return ;
        }
        let lhs = trim_chars(&slice_of(&chars, 0, at));
        let rhs = trim_chars(&slice_of(&chars, at + 1, chars.len()));
        proof {
            assert(chars@.subrange(0, at as int) == chars@.take(at as int));
            assert(chars@.subrange(at + 1, chars.len() as int) == chars@.skip(at + 1));
            assert(key_value(line@) == Some((lhs@, rhs@)));
        }
        if chars_eq(&lhs, &chars_of("title")) {
            self.title = string_of(&rhs);
        } else if chars_eq(&lhs, &chars_of("date_created")) {
            let value = string_of(&rhs);
            match match_possible_dates(value.as_str()) {
                Ok(found) => {
                    self.date_created = found;
                    self.date_created_valid = true;
                },
                Err(_) => {
                    self.date_created_valid = false;
                    let path = self.get_filepath_as_str();
                    proof {
                        assert(string_views(site.errors.invalid_date_created@.push(path))
                            == string_views(site.errors.invalid_date_created@).push(path@));
                    }
                    site.errors.add_invalid_date_created(path);
                },
            }
        } else if chars_eq(&lhs, &chars_of("date_updated")) {
            let value = string_of(&rhs);
            match match_possible_dates(value.as_str()) {
                Ok(found) => {
                    self.date_updated = found;
                    self.date_updated_valid = true;
                },
                Err(_) => {
                    self.date_updated_valid = false;
                    let path = self.get_filepath_as_str();
                    proof {
                        assert(string_views(site.errors.invalid_date_updated@.push(path))
                            == string_views(site.errors.invalid_date_updated@).push(path@));
                    }
                    site.errors.add_invalid_date_updated(path);
                },
            }
        } else if chars_eq(&lhs, &chars_of("summary")) {
            self.summary = Some(string_of(&rhs));
        } else if chars_eq(&lhs, &chars_of("template")) {
            self.template = string_of(&rhs);
        } else if chars_eq(&lhs, &chars_of("publish")) {
            self.publish = !chars_eq(&rhs, &chars_of("false"));
        } else if chars_eq(&lhs, &chars_of("tag")) || chars_eq(&lhs, &chars_of("tags")) {
            self.tags = tags_of(&rhs);
        }
    }

    /// The date of the last change, as pages show it.
    pub fn date_modified_str(&self) -> (r: String)
        ensures
            r@ == self.date_updated.label@,
    {
        self.date_updated.label.clone()
    }

    /// The path of the document.
    pub fn get_filepath_as_str(&self) -> (r: String)
        ensures
            r@ == self.filepath@,
    {
        self.filepath.clone()
    }

    /// The date of creation, as pages show it.
    pub fn date_created_str(&self) -> (r: String)
        ensures
            r@ == self.date_created.label@,
    {
        self.date_created.label.clone()
    }

    /// A copy.
    pub fn copy(&self) -> (r: Frontmatter)
        ensures
            r@ == self@,
            self.wf() ==> r.wf(),
            r.date_created.text@ == self.date_created.text@,
            r.date_created.label@ == self.date_created.label@,
            r.date_updated.text@ == self.date_updated.text@,
            r.date_updated.label@ == self.date_updated.label@,
    {
        Frontmatter {
            title: self.title.clone(),
            filepath: self.filepath.clone(),
            summary: clone_opt(&self.summary),
            tags: clone_strings(&self.tags),
            publish: self.publish,
            date_created: self.date_created.copy(),
            date_updated: self.date_updated.copy(),
            date_created_valid: self.date_created_valid,
            date_updated_valid: self.date_updated_valid,
            template: self.template.clone(),
            in_sitemap: self.in_sitemap,
        }
    }
}

/// The names of the title and of the two date fields are three names.
proof fn lemma_names_differ()
    ensures
        "title"@ != "date_created"@,
        "title"@ != "date_updated"@,
        "date_created"@ != "date_updated"@,
{
    reveal_strlit("title");
    reveal_strlit("date_created");
    reveal_strlit("date_updated");
    assert("title"@.len() == 5);
    assert("date_created"@.len() == 12);
    assert("date_updated"@.len() == 12);
    assert("date_created"@[5] == 'c');
    assert("date_updated"@[5] == 'u');
}

/// `done` holds the first `n` lines of `rest`, none of them the fence, so
/// that the block of `rest` is `done` and the block of what follows.
pub open spec fn reading(done: Seq<Seq<char>>, rest: Seq<Seq<char>>, n: int) -> bool {
    0 <= n <= rest.len() && block_of(rest) == done + block_of(rest.skip(n))
}

} // verus!
