use esker::config::Config;
use esker::dates::Moment;
use esker::link::{EskerLinkType, Link};
use esker::scan::SourceFile;
use esker::parser::headlines::ParseHeadlines;
use esker::parser::syntax_highlight::{highlight, HighlightError, HighlightSpec, Highlighter};
use esker::site::{BuildState, Site};
use esker::templates::{get_name, pick_name, section_pages, Page, SectionPage};
use pulldown_cmark::{Event, HeadingLevel, Options, Parser, Tag};
use tera::Tera;

fn config() -> Config {
    Config {
        url: String::from("https://example.org"),
        title: String::from("Example"),
        attachment_directory: Some(String::from("attachments")),
        description: Some(String::from("An example")),
        ignored_directories: None,
        tags_url: Some(String::from("tags")),
        theme: None,
    }
}

fn source(path: &str, content: &str, created: i64) -> SourceFile {
    SourceFile {
        path: String::from(path),
        content: String::from(content),
        created: Moment::new(created, 0).unwrap(),
        modified: Moment::new(created + 60, 0).unwrap(),
    }
}

fn built(sources: Vec<SourceFile>) -> Site {
    let mut site = Site::new(String::from("/site"), config());
    assert!(site.start_build());
    let highlighter = Highlighter::new();
    site.load_files(sources, &highlighter.set).expect("the build goes through");
    site
}

#[test]
fn the_template_of_a_document_is_the_one_it_names_if_loaded() {
    let mut tera = Tera::default();
    tera.add_raw_template("list.html", "a list").unwrap();
    tera.add_raw_template("single.html", "a page").unwrap();
    assert_eq!(get_name(&tera, "list"), "list.html");
    assert_eq!(get_name(&tera, "missing"), "single.html");
    assert_eq!(get_name(&tera, ""), "single.html");
    let names = vec![String::from("a.html"), String::from("b.html")];
    assert_eq!(pick_name(&names, "b"), "b.html");
    assert_eq!(pick_name(&names, "b.html"), "single.html");
    assert_eq!(pick_name(&Vec::new(), "a"), "single.html");
}

#[test]
fn a_page_shows_its_document() {
    let site = built(vec![
        source("/site/posts/_index.md", "---\ntitle: Posts\n---\n", 0),
        source("/site/posts/one.md", "---\ntitle: One\nsummary: first\ntags: t\n---\n# Head\n", 86_400),
        source("/site/posts/two.md", "---\ntitle: Two\n---\nsee [one](posts/one.md)\n", 172_800),
    ]);
    assert_eq!(site.markdown_files.keys, vec!["posts"]);
    let docs = &site.markdown_files.values[0];
    let page = Page::new(&docs[1]);
    assert_eq!(page.title, "One");
    assert_eq!(page.url, "https://example.org/posts/one.html");
    assert_eq!(page.content, "<h1 id=\"head\">Head</h1>");
    assert_eq!(page.summary.as_deref(), Some("first"));
    assert_eq!(page.date_created, "1970-01-02 00:00");
    assert_eq!(page.date_updated, "1970-01-02 00:01");
    assert_eq!(page.date_created_timestamp, 86_400);
    assert_eq!(page.date_updated_timestamp, 86_460);
    assert_eq!(page.tags, &vec![String::from("t")]);
    assert_eq!(page.toc.len(), 1);
    assert_eq!(page.backlinks.len(), 1);
    assert!(page.related_files.is_empty());
    assert!(!page.is_section);
    let listed = section_pages(docs);
    assert_eq!(listed.len(), 2);
    assert_eq!(listed[0].title, "One");
    assert_eq!(listed[1].title, "Two");
    let section = SectionPage::new(listed);
    assert_eq!(section.pages.len(), 2);
    let settings = esker::templates::Config::new(&site);
    assert_eq!(settings.title, "Example");
    assert_eq!(settings.description, "An example");
    assert_eq!(settings.url, "https://example.org");
}

#[test]
fn tags_have_pages_and_documents_have_entries() {
    let site = built(vec![
        source("/site/one.md", "---\ntags: rust, , Web Dev\n---\n", 10),
        source("/site/two.md", "---\ntags: rust\n---\n", 20),
    ]);
    let pages = site.build_tag_pages();
    let seen: Vec<(&str, &str)> =
        pages.iter().map(|p| (p.tag.as_str(), p.out_path.as_str())).collect();
    assert_eq!(
        seen,
        vec![
            ("rust", "/site/_esker/_site/tags/rust.html"),
            ("Web Dev", "/site/_esker/_site/tags/Web Dev.html")
        ]
    );
    assert_eq!(site.tags.keys, vec!["rust", "", "Web Dev"]);
    let rust = &site.tags.values[0];
    assert_eq!(rust.len(), 2);
    assert_eq!(rust[0].url, "https://example.org/one.html");
    assert_eq!(
        rust[0].link_type,
        EskerLinkType::TaggedItem { date_created: String::from("1970-01-01 00:00:10") }
    );
    assert_eq!(
        site.template_sitemap[1].link_type,
        EskerLinkType::Sitemap { date_created_timestamp: 20 }
    );
    assert_eq!(site.state, BuildState::Rendering);
}

#[test]
fn attachments_that_no_document_refers_to_are_unused() {
    let mut site = Site::new(String::from("/site"), config());
    assert!(site.is_unused_attachment("attachments/a cat.png"));
    let mut link = Link::empty();
    link.url = String::from("attachments/a%20cat.png");
    site.add_attachment(link);
    assert!(!site.is_unused_attachment("attachments/a cat.png"));
    assert!(site.is_unused_attachment("attachments/a dog.png"));
    let mut external = Link::empty();
    external.url = String::from("https://far.org");
    site.add_link(external);
    let mut internal = Link::empty();
    internal.is_internal = true;
    site.add_link(internal);
    assert_eq!(site.links.external.len(), 1);
    assert_eq!(site.links.internal.len(), 1);
    site.clear_site_for_rebuild();
    assert!(site.links.external.is_empty() && site.links.internal.is_empty());
    assert_eq!(site.attachments.len(), 1);
}

fn headed(events: Vec<Event>) -> String {
    let mut out = String::new();
    let (events, _) = ParseHeadlines::new(events, "https://example.org/a.html").collect();
    pulldown_cmark::html::push_html(&mut out, events.into_iter());
    out
}

#[test]
fn a_heading_with_an_identifier_keeps_it() {
    let heading = |text: &'static str| {
        vec![
            Event::Start(Tag::Heading(HeadingLevel::H2, Some("foo"), Vec::new())),
            Event::Text(text.into()),
            Event::End(Tag::Heading(HeadingLevel::H2, Some("foo"), Vec::new())),
        ]
    };
    assert_eq!(headed(heading("Some Text")), "<h2 id=\"foo\">Some Text</h2>");
    assert_eq!(headed(heading("Other words entirely")), "<h2 id=\"foo\">Other words entirely</h2>");
}

#[test]
fn a_heading_without_an_identifier_gets_the_slug_of_its_text() {
    let events: Vec<Event> = Parser::new_ext("### Hello, *big* World!\n\ntext", Options::empty()).collect();
    assert_eq!(
        headed(events),
        "<h3 id=\"hello-big-world\">Hello, <em>big</em> World!</h3>\n<p>text</p>\n"
    );
    let empty = vec![
        Event::Start(Tag::Heading(HeadingLevel::H1, None, Vec::new())),
        Event::End(Tag::Heading(HeadingLevel::H1, None, Vec::new())),
    ];
    assert_eq!(headed(empty), "<h1 id=\"\"></h1>");
}

#[test]
fn a_heading_enters_the_table_of_contents_under_its_identifier() {
    let events = vec![
        Event::Start(Tag::Heading(HeadingLevel::H2, Some("foo"), Vec::new())),
        Event::Text("Some ".into()),
        Event::Text("Text".into()),
        Event::End(Tag::Heading(HeadingLevel::H2, Some("foo"), Vec::new())),
        Event::Text("between".into()),
        Event::Start(Tag::Heading(HeadingLevel::H3, None, Vec::new())),
        Event::Text("Some ".into()),
        Event::Text("Text".into()),
        Event::End(Tag::Heading(HeadingLevel::H3, None, Vec::new())),
    ];
    let (events, toc) = ParseHeadlines::new(events, "https://example.org/a.html").collect();
    assert_eq!(
        events,
        vec![
            Event::Html("<h2 id=\"foo\">Some Text</h2>".into()),
            Event::Text("between".into()),
            Event::Html("<h3 id=\"some-text\">Some Text</h3>".into()),
        ]
    );
    assert_eq!(toc.len(), 2);
    assert_eq!(toc[0].url, "https://example.org/a.html#foo");
    assert_eq!(toc[0].title, "Some Text");
    assert_eq!(toc[0].link_type, EskerLinkType::Toc { heading_level: 2 });
    assert_eq!(toc[1].url, "https://example.org/a.html#some-text");
    assert_eq!(toc[1].title, "Some Text");
    assert_eq!(toc[1].link_type, EskerLinkType::Toc { heading_level: 3 });
    assert!(!toc[1].is_internal);
    assert_eq!(toc[1].originating_file_url, None);
}

#[test]
fn a_heading_that_is_never_closed_ends_the_page() {
    let events = vec![
        Event::Text("before".into()),
        Event::Start(Tag::Heading(HeadingLevel::H1, None, Vec::new())),
        Event::Text("lost".into()),
    ];
    assert_eq!(headed(events), "before");
    let mut stage = ParseHeadlines::new(vec![Event::SoftBreak], "");
    assert_eq!(stage.next(), Some(Event::SoftBreak));
    assert_eq!(stage.next(), None);
}

#[test]
fn an_empty_block_of_a_known_language_cannot_be_highlighted() {
    let highlighter = Highlighter::new();
    let spec = HighlightSpec::find(&highlighter.set, "rust").expect("rust is known");
    assert_eq!(highlight(&highlighter.set, &spec, ""), Err(HighlightError::UnexpectedMarkup));
    let one = highlight(&highlighter.set, &spec, "let x = 2;\n").expect("highlighted");
    assert!(one.starts_with("<span class=\"syntax-"));
    assert!(!one.starts_with("<span class=\"syntax-source syntax-rust\">"));
}

#[test]
fn building_twice_gives_the_same_pages() {
    let corpus = || {
        vec![
            source("/site/a.md", "---\ntags: x\n---\n# A\n\n[[b]] and [b](b.md)\n\n```python\nx = 1\n```\n", 1),
            source("/site/b.md", "---\ntags: x\n---\n![pic](img/p.png) <https://far.org>\n", 2),
        ]
    };
    let first = built(corpus());
    let second = built(corpus());
    let pages = |site: &Site| -> Vec<(String, String)> {
        site.markdown_files.values[0].iter().map(|d| (d.full_url.clone(), d.html.clone())).collect()
    };
    assert_eq!(pages(&first), pages(&second));
    assert_eq!(first.links.internal, second.links.internal);
    assert_eq!(first.links.external, second.links.external);
    assert_eq!(first.links.external.len(), 1);
    assert_eq!(first.links.external[0].url, "https://far.org");
    let b = &first.markdown_files.values[0][1];
    assert_eq!(
        b.html,
        "<p><img src=\"https://example.org/img/p.png\" alt=\"pic\" /> <a href=\"https://far.org\" title=\"https://example.org/https://far.org\">https://far.org</a></p>\n"
    );
    assert!(first.markdown_files.values[0][0].html.contains("<code class=\"highlight code python\">"));
}
