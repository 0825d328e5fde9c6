use esker::config::Config;
use esker::dates::Moment;
use esker::errors::{DateField, Errors, ReportLine, Warning};
use esker::frontmatter::{tags_of, Frontmatter};
use esker::md_file::{normalize_wikilinks, strip_frontmatter, MdFile};
use esker::site::Site;

fn site() -> Site {
    Site::new(
        String::from("/site"),
        Config {
            url: String::from("https://example.org"),
            title: String::from("Example"),
            attachment_directory: None,
            description: None,
            ignored_directories: None,
            tags_url: None,
            theme: None,
        },
    )
}

fn created() -> Moment {
    Moment::new(1_600_000_000, 0).unwrap()
}

fn updated() -> Moment {
    Moment::new(1_700_000_000, 0).unwrap()
}

fn read(site: &mut Site, content: &str) -> Option<Frontmatter> {
    Frontmatter::new(site, "/site/posts/My Post.md", content, created(), updated())
}

#[test]
fn tags_without_dates_keep_the_dates_of_the_file() {
    let mut site = site();
    let fm = read(&mut site, "---\ntags: a, b\n---\nbody\n").expect("frontmatter");
    assert_eq!(fm.tags, vec!["a", "b"]);
    assert_eq!(fm.date_created.timestamp, 1_600_000_000);
    assert_eq!(fm.date_updated.timestamp, 1_700_000_000);
    assert!(fm.date_created_valid);
    assert!(fm.date_updated_valid);
    assert_eq!(site.errors.count(), 0);
    assert!(!site.errors.has_errors());
    assert_eq!(fm.title, "My Post");
    assert!(fm.publish);
    assert_eq!(fm.summary, None);
    assert_eq!(fm.template, "");
}

#[test]
fn every_field_is_read() {
    let mut site = site();
    let content = "---\ntitle:  A Title \nsummary: short: and sweet\ntemplate: list\npublish: false\ntag: x\ndate_created: 2022-12-01 11:50\ndate_updated: 2022-12-02\nunknown: ignored\nno colon here\n---\nbody\n";
    let fm = read(&mut site, content).expect("frontmatter");
    assert_eq!(fm.title, "A Title");
    assert_eq!(fm.summary.as_deref(), Some("short: and sweet"));
    assert_eq!(fm.template, "list");
    assert!(!fm.publish);
    assert_eq!(fm.tags, vec!["x"]);
    assert_eq!(fm.date_created_str(), "2022-12-01 11:50");
    assert_eq!(fm.date_modified_str(), "2022-12-02 17:00");
    assert_eq!(fm.get_filepath_as_str(), "/site/posts/My Post.md");
    assert!(!site.errors.has_errors());
    let copy = fm.copy();
    assert_eq!(copy.title, fm.title);
    assert_eq!(copy.tags, fm.tags);
}

#[test]
fn a_date_that_cannot_be_read_is_recorded_and_the_file_date_stays() {
    let mut site = site();
    let fm = read(&mut site, "---\ndate_created: tomorrow\ndate_updated: 12/01/2022\n---\n")
        .expect("frontmatter");
    assert_eq!(fm.date_created.timestamp, 1_600_000_000);
    assert_eq!(fm.date_updated.timestamp, 1_700_000_000);
    assert!(!fm.date_created_valid);
    assert!(!fm.date_updated_valid);
    assert_eq!(site.errors.invalid_date_created, vec!["/site/posts/My Post.md"]);
    assert_eq!(site.errors.invalid_date_updated, vec!["/site/posts/My Post.md"]);
    assert_eq!(site.errors.count(), 2);
    assert!(site.errors.has_errors());
}

#[test]
fn a_document_without_the_fence_has_no_frontmatter() {
    let mut site = site();
    assert!(read(&mut site, "title: no fence\n---\n").is_none());
    assert!(read(&mut site, "\n---\ntitle: late fence\n---\n").is_none());
    assert!(read(&mut site, "# Just a heading\n").is_none());
    assert!(read(&mut site, "").is_none());
    assert!(!site.errors.has_errors());
    assert_eq!(site.errors.count(), 0);
    assert!(read(&mut site, "---\ntitle: never closed\n").is_some());
}

#[test]
fn only_the_first_block_is_frontmatter() {
    let mut site = site();
    let fm = read(&mut site, "---\ntitle: first\n---\ntitle: second\n").expect("frontmatter");
    assert_eq!(fm.title, "first");
}

#[test]
fn tags_are_trimmed_and_named_once() {
    let chars = |s: &str| s.chars().collect::<Vec<char>>();
    assert_eq!(tags_of(&chars("a, b ,a,  c")), vec!["a", "b", "c"]);
    assert_eq!(tags_of(&chars("")), vec![""]);
    assert_eq!(tags_of(&chars("one")), vec!["one"]);
}

#[test]
fn one_field_at_a_time() {
    let mut site = site();
    let mut fm = read(&mut site, "---\n---\n").expect("frontmatter");
    fm.get_key_value_from_line("title: Changed", &mut site);
    assert_eq!(fm.title, "Changed");
    fm.get_key_value_from_line("publish: no", &mut site);
    assert!(fm.publish);
    fm.get_key_value_from_line("publish: false", &mut site);
    assert!(!fm.publish);
    fm.get_key_value_from_line("date_created: never", &mut site);
    assert_eq!(site.errors.invalid_date_created.len(), 1);
    fm.get_key_value_from_line("date_created: 2020-01-01", &mut site);
    assert!(fm.date_created_valid);
    assert_eq!(fm.date_created.text, "2020-01-01 17:00:00");
}

#[test]
fn errors_are_reported_line_by_line() {
    let mut errors = Errors::new();
    assert!(!errors.has_errors());
    assert!(matches!(errors.report_errors(false).as_slice(), [ReportLine::Heading, ReportLine::VerboseHint]));
    errors.add_invalid_date_created(String::from("a.md"));
    errors.add_invalid_date_created(String::from("b.md"));
    errors.add_invalid_date_updated(String::from("c.md"));
    assert!(errors.has_errors());
    assert_eq!(errors.count(), 3);
    let short = errors.report_errors(false);
    assert_eq!(short.len(), 4);
    assert!(matches!(short[2], ReportLine::Count { field: DateField::Created, files: 2 }));
    assert!(matches!(short[3], ReportLine::Count { field: DateField::Updated, files: 1 }));
    let long = errors.report_errors(true);
    assert_eq!(long.len(), 5);
    assert!(matches!(long[0], ReportLine::Heading));
    assert!(matches!(&long[2], ReportLine::Files { field: DateField::Created, paths } if paths.len() == 2));
    assert!(matches!(&long[4], ReportLine::Files { field: DateField::Updated, paths } if paths[0] == "c.md"));
    errors.clear();
    assert!(!errors.has_errors());
    assert_eq!(errors.count(), 0);
}

#[test]
fn the_body_is_the_text_without_frontmatter() {
    assert_eq!(strip_frontmatter("---\ntitle: x\n---\nfirst\n\nsecond\n"), "first\n\nsecond");
    assert_eq!(strip_frontmatter("no frontmatter\nat all"), "no frontmatter\nat all");
    assert_eq!(
        strip_frontmatter("---\na: b\n---\nkept\n---\nkept\n---\nkept too"),
        "kept\n---\nkept\n---\nkept too"
    );
    assert_eq!(strip_frontmatter("---\ntitle: T\n---\nHello\n\n---\n\nWorld"), "Hello\n\n---\n\nWorld");
    assert_eq!(strip_frontmatter("---\ntitle: never closed\n"), "");
    assert_eq!(strip_frontmatter("---\n---\n"), "");
    assert_eq!(strip_frontmatter("text\n---\nmore\n---\nrest"), "text\n---\nmore\n---\nrest");
    assert_eq!(strip_frontmatter(""), "");
}

#[test]
fn a_document_knows_where_its_page_goes() {
    let mut site = site();
    let content = "---\ntitle: Hello\n---\nbody\n";
    let fm = read(&mut site, content).expect("frontmatter");
    let doc = MdFile::new(&site, String::from(content), String::from("/site/posts/My Post.md"), fm);
    assert_eq!(doc.raw, "body");
    assert_eq!(doc.html, "");
    assert_eq!(doc.web_path_parents, "posts");
    assert_eq!(doc.web_path, "my-post.html");
    assert_eq!(doc.out_path, "/site/_esker/_site/posts/my-post.html");
    assert_eq!(doc.full_url, "https://example.org/posts/my-post.html");
    assert_eq!(doc.file_name_without_extension, "My Post");
    assert!(!doc.is_section);
    assert!(doc.backlinks.is_empty() && doc.toc.is_empty() && doc.related_files.is_empty());
    let fm = Frontmatter::new(&mut site, "/site/posts/_index.md", "---\n---\n", created(), updated())
        .expect("frontmatter");
    let section = MdFile::new(&site, String::from("---\n---\n"), String::from("/site/posts/_index.md"), fm);
    assert!(section.is_section);
    assert_eq!(section.full_url, "https://example.org/posts/index.html");
    let mut doc = doc;
    doc.set_raw_contents("---\n---\nother");
    assert_eq!(doc.raw, "other");
    assert_eq!(doc.full_url, "https://example.org/posts/my-post.html");
}

#[test]
fn test_wikilink() {
    let site = site();
    let chars = |s: &str| s.chars().collect::<Vec<char>>();
    let one = normalize_wikilinks(&site, &chars("[[I am a link]]"));
    assert!(one != chars("[[I am a link]]"));
    assert_eq!(one, chars("[I am a link](I am a link.md)"));
    let ex = "I like [[foo/Oranges]] and here's [[another link]]";
    let result = normalize_wikilinks(&site, &chars(ex));
    println!("\n\n caps are {:#?}", result.iter().collect::<String>());
    assert_eq!(
        result,
        chars("I like [foo/Oranges](foo/Oranges.md) and here's [another link](another link.md)")
    );
}

#[test]
fn what_is_no_short_reference_stays() {
    let site = site();
    let chars = |s: &str| s.chars().collect::<Vec<char>>();
    for text in ["[[]]", "[[a:b]]", "[[a]", "[a]]", "[[a[b]]", "[[a|b]] x", "[[[a]]]"] {
        let out: String = normalize_wikilinks(&site, &chars(text)).iter().collect();
        match text {
            "[[a|b]] x" => assert_eq!(out, "[a|b](a|b.md) x"),
            "[[[a]]]" => assert_eq!(out, "[[a](a.md)]"),
            _ => assert_eq!(out, text),
        }
    }
}

#[test]
fn warnings_are_reported_one_by_one() {
    let mut errors = Errors::new();
    assert!(!errors.has_warnings());
    errors.add_warning(Warning {
        file: String::from("a.md"),
        reference: String::from("b"),
        ambiguous: false,
    });
    assert!(errors.has_warnings());
    assert!(!errors.has_errors());
    assert_eq!(errors.count(), 0);
    let short = errors.report_errors(false);
    assert!(matches!(
        short.as_slice(),
        [ReportLine::Heading, ReportLine::VerboseHint, ReportLine::References { count: 1 }]
    ));
    let long = errors.report_errors(true);
    assert_eq!(long.len(), 3);
    assert!(matches!(long[1], ReportLine::References { count: 1 }));
    assert!(matches!(
        &long[2],
        ReportLine::Reference { file, reference, ambiguous: false } if file == "a.md" && reference == "b"
    ));
    errors.clear();
    assert!(!errors.has_warnings());
}
