use esker::config::Config;
use esker::dates::Moment;
use esker::errors::ReportLine;
use esker::scan::SourceFile;
use esker::parser::syntax_highlight::Highlighter;
use esker::site::{BuildState, Site};

fn config() -> Config {
    Config {
        url: String::from("http://localhost:8080"),
        title: String::from("My Site"),
        attachment_directory: Some(String::from("attachments")),
        description: None,
        ignored_directories: Some(vec![String::from("private")]),
        tags_url: Some(String::from("tags")),
        theme: None,
    }
}

fn source(path: &str, content: &str) -> SourceFile {
    SourceFile {
        path: String::from(path),
        content: String::from(content),
        created: Moment::new(1_669_895_400, 0).unwrap(),
        modified: Moment::new(1_669_981_800, 0).unwrap(),
    }
}

fn built(sources: Vec<SourceFile>) -> Site {
    let mut site = Site::new(String::from("/site"), config());
    site.state = BuildState::Scanning;
    let highlighter = Highlighter::new();
    site.load_files(sources, &highlighter.set).expect("the build goes through");
    site
}

fn document<'a>(site: &'a Site, parents: &str, url: &str) -> &'a esker::md_file::MdFile {
    let at = site.markdown_files.keys.iter().position(|k| k == parents).expect("the directory");
    site.markdown_files.values[at].iter().find(|d| d.full_url == url).expect("the document")
}

#[test]
fn a_link_from_a_to_b_is_a_backlink_of_b_only() {
    let site = built(vec![
        source("/site/a.md", "---\ntitle: A\n---\nsee [text](b.md)\n"),
        source("/site/b.md", "---\ntitle: B\n---\nnothing to see\n"),
    ]);
    assert_eq!(site.state, BuildState::Rendering);
    let a = document(&site, "", "http://localhost:8080/a.html");
    let b = document(&site, "", "http://localhost:8080/b.html");
    assert_eq!(b.backlinks.len(), 1);
    assert_eq!(
        b.backlinks[0].originating_file_url.as_deref(),
        Some("http://localhost:8080/a.html")
    );
    assert_eq!(b.backlinks[0].originating_file_title.as_deref(), Some("A"));
    assert_eq!(b.backlinks[0].title, "text");
    assert!(a.backlinks.is_empty());
    assert_eq!(a.html, "<p>see <a href=\"http://localhost:8080/b.html\" title=\"http://localhost:8080/http://localhost:8080/b.html\">text</a></p>\n");
}

#[test]
fn two_links_from_one_document_give_one_backlink() {
    let site = built(vec![
        source("/site/a.md", "---\ntitle: A\n---\n[one](b.md) and [two](b.md) and [self](a.md)\n"),
        source("/site/b.md", "---\ntitle: B\n---\n[back](a.md)\n"),
    ]);
    let a = document(&site, "", "http://localhost:8080/a.html");
    let b = document(&site, "", "http://localhost:8080/b.html");
    assert_eq!(b.backlinks.len(), 1);
    assert_eq!(b.backlinks[0].title, "one");
    assert_eq!(a.backlinks.len(), 1);
    assert_eq!(
        a.backlinks[0].originating_file_url.as_deref(),
        Some("http://localhost:8080/b.html")
    );
    assert_eq!(site.links.internal.len(), 4);
    assert!(site.links.external.is_empty());
}

#[test]
fn documents_that_share_a_tag_are_related() {
    let site = built(vec![
        source("/site/posts/one.md", "---\ntags: a, b\n---\none\n"),
        source("/site/posts/two.md", "---\ntags: b\n---\ntwo\n"),
        source("/site/three.md", "---\ntags: c, a\n---\nthree\n"),
    ]);
    let one = document(&site, "posts", "http://localhost:8080/posts/one.html");
    let two = document(&site, "posts", "http://localhost:8080/posts/two.html");
    let three = document(&site, "", "http://localhost:8080/three.html");
    let urls = |d: &esker::md_file::MdFile| {
        d.related_files.iter().map(|l| l.url.clone()).collect::<Vec<String>>()
    };
    assert_eq!(
        urls(one),
        vec!["http://localhost:8080/three.html", "http://localhost:8080/posts/two.html"]
    );
    assert_eq!(urls(two), vec!["http://localhost:8080/posts/one.html"]);
    assert_eq!(urls(three), vec!["http://localhost:8080/posts/one.html"]);
    assert_eq!(site.tags.keys, vec!["a", "b", "c"]);
    assert_eq!(site.template_sitemap.len(), 3);
}

#[test]
fn ignored_unpublished_and_invalid_sources_are_left_out() {
    let site = built(vec![
        source("/site/private/secret.md", "---\ntitle: Secret\n---\nhidden\n"),
        source("/site/draft.md", "---\npublish: false\n---\nnot yet\n"),
        source("/site/plain.md", "no frontmatter here\n"),
        source("/site/kept.md", "---\n---\nkept\n"),
    ]);
    assert_eq!(site.markdown_files_paths.len(), 4);
    assert_eq!(site.invalid_files, vec!["/site/plain.md"]);
    assert_eq!(site.template_sitemap.len(), 1);
    assert_eq!(site.template_sitemap[0].url, "http://localhost:8080/kept.html");
    assert_eq!(site.template_sitemap[0].title, "kept");
    assert!(site.is_in_private_folder("/site/private/secret.md"));
    assert!(site.is_in_private_folder("/site/private/deep/secret.md"));
    assert!(!site.is_in_private_folder("/site/privateer/notes.md"));
    assert!(!site.is_in_private_folder("/site/kept.md"));
}

#[test]
fn a_build_without_documents_is_no_error() {
    let site = built(Vec::new());
    assert_eq!(site.state, BuildState::Rendering);
    assert!(site.markdown_files.keys.is_empty());
    assert!(!site.errors.has_errors());
}

#[test]
fn short_references_resolve_to_the_first_registered_document() {
    let site = built(vec![
        source("/site/fruit/Oranges.md", "---\n---\nfirst\n"),
        source("/site/other/Oranges.md", "---\n---\nsecond\n"),
        source("/site/index.md", "---\n---\nI like [[Oranges]] and [[other/Oranges]] and [[nothing]]\n"),
    ]);
    let index = document(&site, "", "http://localhost:8080/index.html");
    assert_eq!(
        index.raw,
        "I like [Oranges](fruit/Oranges.md) and [other/Oranges](other/Oranges.md) and [nothing](nothing.md)"
    );
    assert_eq!(
        site.get_item_from_flat_sitemap(String::from("Oranges")),
        Some(String::from("fruit/Oranges"))
    );
    assert_eq!(site.get_item_from_flat_sitemap(String::from("missing")), None);
    let urls: Vec<&str> = site.links.internal.iter().map(|l| l.url.as_str()).collect();
    assert_eq!(
        urls,
        vec![
            "http://localhost:8080/fruit/oranges.html",
            "http://localhost:8080/other/oranges.html",
            "http://localhost:8080/nothing.html"
        ]
    );
}

#[test]
fn references_to_none_or_to_several_documents_are_warned_of() {
    let mut site = built(vec![
        source("/site/fruit/Oranges.md", "---\n---\nfirst\n"),
        source("/site/other/Oranges.md", "---\n---\nsecond\n"),
        source("/site/index.md", "---\n---\nI like [[Oranges]] and [[other/Oranges]] and [[nothing]]\n"),
    ]);
    assert!(!site.errors.has_errors());
    assert!(site.errors.has_warnings());
    let warnings: Vec<(&str, &str, bool)> = site
        .errors
        .warnings
        .iter()
        .map(|w| (w.file.as_str(), w.reference.as_str(), w.ambiguous))
        .collect();
    assert_eq!(
        warnings,
        vec![("/site/index.md", "Oranges", true), ("/site/index.md", "nothing", false)]
    );
    let short = site.errors.report_errors(false);
    assert_eq!(short.len(), 3);
    assert!(matches!(short[2], ReportLine::References { count: 2 }));
    let long = site.errors.report_errors(true);
    assert_eq!(long.len(), 4);
    assert!(matches!(long[1], ReportLine::References { count: 2 }));
    assert!(matches!(&long[2], ReportLine::Reference { reference, ambiguous: true, .. } if reference == "Oranges"));
    assert!(matches!(&long[3], ReportLine::Reference { file, ambiguous: false, .. } if file == "/site/index.md"));
    site.clear_site_for_rebuild();
    assert!(!site.errors.has_warnings());
}

#[test]
fn a_malformed_code_block_fails_the_build() {
    let mut site = Site::new(String::from("/site"), config());
    site.state = BuildState::Scanning;
    let highlighter = Highlighter::new();
    let r = site.load_files(
        vec![source("/site/a.md", "---\n---\n```rust,ignore\nlet x = 1;\n```\n")],
        &highlighter.set,
    );
    assert!(r.is_err());
    assert_eq!(site.state, BuildState::Failed);
}

#[test]
fn headings_enter_the_table_of_contents() {
    let site = built(vec![source(
        "/site/a.md",
        "---\ntitle: A\n---\n# First *part*\n\ntext\n\n## Second\n",
    )]);
    let a = document(&site, "", "http://localhost:8080/a.html");
    assert_eq!(a.toc.len(), 2);
    assert_eq!(a.toc[0].title, "First part");
    assert_eq!(a.toc[0].url, "http://localhost:8080/a.html#first-part");
    assert_eq!(a.toc[0].link_type, esker::link::EskerLinkType::Toc { heading_level: 1 });
    assert_eq!(a.toc[1].title, "Second");
    assert_eq!(a.toc[1].link_type, esker::link::EskerLinkType::Toc { heading_level: 2 });
    assert_eq!(
        a.html,
        "<h1 id=\"first-part\">First <em>part</em></h1>\n<p>text</p>\n<h2 id=\"second\">Second</h2>"
    );
}

#[test]
fn the_table_of_contents_leads_to_the_identifier_that_the_page_shows() {
    let site = built(vec![source(
        "/site/a.md",
        "---\ntitle: A\n---\n# foo**bar**\n\n## Hello *big* World\n\ntext\n",
    )]);
    let a = document(&site, "", "http://localhost:8080/a.html");
    assert_eq!(a.toc.len(), 2);
    assert_eq!(a.toc[0].title, "foobar");
    assert_eq!(a.toc[0].url, "http://localhost:8080/a.html#foobar");
    assert_eq!(a.toc[1].title, "Hello big World");
    assert_eq!(a.toc[1].url, "http://localhost:8080/a.html#hello-big-world");
    assert_eq!(
        a.html,
        "<h1 id=\"foobar\">foo<strong>bar</strong></h1><h2 id=\"hello-big-world\">Hello <em>big</em> World</h2>\n<p>text</p>\n"
    );
}

#[test]
fn the_body_goes_on_behind_a_thematic_break() {
    let site = built(vec![source("/site/a.md", "---\ntitle: T\n---\nHello\n\n---\n\nWorld")]);
    let a = document(&site, "", "http://localhost:8080/a.html");
    assert_eq!(a.raw, "Hello\n\n---\n\nWorld");
    assert_eq!(a.html, "<p>Hello</p>\n<hr />\n<p>World</p>\n");
}

#[test]
fn an_empty_file_is_no_document() {
    let site = built(vec![
        source("/site/empty.md", ""),
        source("/site/a.md", "---\ntitle: A\n---\ntext\n"),
    ]);
    assert_eq!(site.invalid_files, vec!["/site/empty.md"]);
    assert_eq!(site.template_sitemap.len(), 1);
    assert_eq!(site.errors.count(), 0);
}

#[test]
fn a_mail_address_in_a_document_is_no_link_into_the_site() {
    let site = built(vec![source(
        "/site/a.md",
        "---\ntitle: A\n---\nwrite to [me](mailto:me@example.com) or see [b](b.md)\n",
    )]);
    assert_eq!(site.links.internal.len(), 1);
    assert_eq!(site.links.internal[0].url, "http://localhost:8080/b.html");
    assert_eq!(site.links.external.len(), 1);
    assert_eq!(site.links.external[0].url, "mailto:me@example.com");
    assert!(!site.links.external[0].is_internal);
    assert_eq!(site.links.external[0].title, "me");
}

#[test]
fn a_rebuild_repeats_the_build() {
    let corpus = || {
        vec![
            source("/site/a.md", "---\ntitle: A\ntags: x\n---\n# Head\n\nsee [text](b.md) and [[b]]\n"),
            source("/site/b.md", "---\ntitle: B\ntags: x\n---\nback to [a](a.md), or <https://far.org>\n"),
        ]
    };
    let mut site = built(corpus());
    let seen = |site: &Site| -> Vec<(String, String, usize, usize, usize)> {
        site.markdown_files.values[0]
            .iter()
            .map(|d| (d.full_url.clone(), d.html.clone(), d.toc.len(), d.backlinks.len(), d.related_files.len()))
            .collect()
    };
    let first = seen(&site);
    let internal = site.links.internal.clone();
    let external = site.links.external.clone();
    let sitemap = site.template_sitemap.clone();
    let tagged = site.tags.values[0].clone();
    site.clear_site_for_rebuild();
    assert!(site.links.internal.is_empty() && site.template_sitemap.is_empty());
    site.state = BuildState::Scanning;
    let highlighter = Highlighter::new();
    site.load_files(corpus(), &highlighter.set).expect("the rebuild goes through");
    assert_eq!(seen(&site), first);
    assert_eq!(site.links.internal, internal);
    assert_eq!(site.links.external, external);
    assert_eq!(site.template_sitemap, sitemap);
    assert_eq!(site.tags.values.len(), 1);
    assert_eq!(site.tags.values[0], tagged);
    assert_eq!(first[0].2, 1);
    assert_eq!(first[0].3, 1);
    assert_eq!(first[0].4, 1);
}
