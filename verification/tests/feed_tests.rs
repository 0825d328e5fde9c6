use esker::config::Config;
use esker::dates::Moment;
use esker::feed::order_newest_first;
use esker::scan::SourceFile;
use esker::parser::syntax_highlight::Highlighter;
use esker::site::{Rebuild, Site};
use esker::util::{get_time_in_ms, path_to_string, time_since_epoch};
use esker::watch::{ChangeKind, WatchEvent};
use std::path::PathBuf;
use std::time::{Duration, UNIX_EPOCH};

fn site() -> Site {
    Site::new(
        String::from("/site"),
        Config {
            url: String::from("https://example.org"),
            title: String::from("Example"),
            attachment_directory: Some(String::from("files")),
            description: None,
            ignored_directories: None,
            tags_url: None,
            theme: None,
        },
    )
}

fn source(path: &str, created: i64) -> SourceFile {
    SourceFile {
        path: String::from(path),
        content: String::from("---\n---\ntext\n"),
        created: Moment::new(created, 0).unwrap(),
        modified: Moment::new(created, 0).unwrap(),
    }
}

#[test]
fn the_newest_comes_first_and_equals_keep_their_order() {
    assert_eq!(order_newest_first(&vec![10, 30, 20]), vec![1, 2, 0]);
    assert_eq!(order_newest_first(&vec![5, 5, 7, 5]), vec![2, 0, 1, 3]);
    assert_eq!(order_newest_first(&vec![1, 2, 3]), vec![2, 1, 0]);
    assert_eq!(order_newest_first(&vec![i64::MIN, i64::MAX]), vec![1, 0]);
    assert_eq!(order_newest_first(&Vec::new()), Vec::<usize>::new());
}

#[test]
fn the_feed_lists_every_document_from_the_newest_on() {
    let mut site = site();
    assert!(site.start_build());
    let highlighter = Highlighter::new();
    site.load_files(
        vec![
            source("/site/old.md", 100),
            source("/site/posts/new.md", 300),
            source("/site/middle.md", 200),
            source("/site/posts/also-old.md", 100),
        ],
        &highlighter.set,
    )
    .unwrap();
    let feed = site.build_syndication_pages();
    let urls: Vec<&str> = feed.iter().map(|p| p.url.as_str()).collect();
    assert_eq!(
        urls,
        vec![
            "https://example.org/posts/new.html",
            "https://example.org/middle.html",
            "https://example.org/old.html",
            "https://example.org/posts/also-old.html"
        ]
    );
    assert_eq!(feed[0].date_created_timestamp, 300);
    assert_eq!(feed[0].content, "<p>text</p>\n");
    assert!(Site::new(String::from("/s"), site.config.clone()).build_syndication_pages().is_empty());
}

#[test]
fn the_changes_of_a_short_while_are_taken_together() {
    let site = site();
    let change = |path: &str| WatchEvent { kind: ChangeKind::Write, path: String::from(path) };
    assert_eq!(
        site.collapse(&vec![
            change("/site/a.md"),
            change("/site/b.md"),
            change("/site/files/x.png"),
            change("/site/readme.txt"),
            change("/site/a.md"),
        ]),
        vec![Rebuild::Markdown, Rebuild::CopyData]
    );
    assert_eq!(
        site.collapse(&vec![
            change("/site/a.md"),
            change("/site/_esker/templates/base.html"),
            change("/site/b.md"),
        ]),
        vec![Rebuild::Full]
    );
    assert!(site.collapse(&Vec::new()).is_empty());
}

#[test]
fn times_are_counted_from_1970() {
    let later = UNIX_EPOCH + Duration::from_millis(1500);
    assert_eq!(get_time_in_ms(later), Duration::from_millis(1500));
    assert_eq!(time_since_epoch(later), Some(Duration::from_millis(1500)));
    assert_eq!(time_since_epoch(UNIX_EPOCH), Some(Duration::ZERO));
    assert_eq!(time_since_epoch(UNIX_EPOCH - Duration::from_secs(1)), None);
}

#[test]
fn a_path_is_shown_as_text() {
    assert_eq!(path_to_string(&PathBuf::from("/site/posts/a file.md")), "/site/posts/a file.md");
    assert_eq!(path_to_string(&PathBuf::from("")), "");
}
