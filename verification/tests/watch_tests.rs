use esker::config::Config;
use esker::orchestrator::BuildStep;
use esker::site::{BuildState, Rebuild, Site};
use esker::watch::{ChangeKind, WatchEvent};

fn site() -> Site {
    Site::new(
        String::from("/site"),
        Config {
            url: String::from("https://example.org"),
            title: String::from("Example"),
            attachment_directory: Some(String::from("attachments")),
            description: Some(String::from("An example")),
            ignored_directories: None,
            tags_url: Some(String::from("tags")),
            theme: None,
        },
    )
}

fn write(path: &str) -> WatchEvent {
    WatchEvent { kind: ChangeKind::Write, path: String::from(path) }
}

#[test]
fn a_changed_document_asks_for_the_documents_only() {
    let mut site = site();
    let asked = site.handle_watch_event(&write("/site/posts/first.md"));
    assert_eq!(asked, Some(Rebuild::Markdown));
    assert_eq!(site.state, BuildState::Scanning);
    let steps = Rebuild::Markdown.steps(&site);
    assert_eq!(
        steps,
        vec![
            BuildStep::ClearIndex,
            BuildStep::LoadFiles,
            BuildStep::BuildTagPages,
            BuildStep::BuildSyndicationPages
        ]
    );
    assert!(!steps.contains(&BuildStep::RemoveOutput));
    assert!(!steps.contains(&BuildStep::CopyPublic));
    assert!(!steps.contains(&BuildStep::CopyData));
    assert_eq!(site.rebuild_markdown(), steps);
}

#[test]
fn a_changed_template_asks_for_a_build_from_nothing() {
    let mut site = site();
    let asked = site.handle_watch_event(&write("/site/_esker/templates/single.html"));
    assert_eq!(asked, Some(Rebuild::Full));
    assert_eq!(site.state, BuildState::Scanning);
    let steps = Rebuild::Full.steps(&site);
    assert_eq!(
        steps,
        vec![
            BuildStep::ReloadConfig,
            BuildStep::RemoveOutput,
            BuildStep::ClearIndex,
            BuildStep::ReloadTemplates,
            BuildStep::CreateDirectories,
            BuildStep::LoadFiles,
            BuildStep::BuildTagPages,
            BuildStep::CreateThemeCss,
            BuildStep::CopyData,
            BuildStep::CopyPublic,
            BuildStep::BuildSyndicationPages,
            BuildStep::ReportErrors
        ]
    );
    assert_eq!(site.rebuild(), steps);
    assert_eq!(site.build(), steps[4..].to_vec());
}

#[test]
fn each_change_asks_for_one_thing() {
    let site = site();
    assert_eq!(site.classify(ChangeKind::Create, "/site/_esker/config.yaml"), Some(Rebuild::Full));
    assert_eq!(site.classify(ChangeKind::Write, "/site/_esker/templates/doc.md"), Some(Rebuild::Full));
    assert_eq!(site.classify(ChangeKind::Remove, "/site/notes/a.md"), Some(Rebuild::Markdown));
    assert_eq!(site.classify(ChangeKind::Write, "/site/_esker/public/css/main.css"), Some(Rebuild::CopyPublic));
    assert_eq!(site.classify(ChangeKind::Write, "/site/_esker/public/readme.md"), Some(Rebuild::Markdown));
    assert_eq!(site.classify(ChangeKind::Write, "/site/attachments/img/cat.png"), Some(Rebuild::CopyData));
    assert_eq!(site.classify(ChangeKind::Write, "/site/attachments/cat.png"), Some(Rebuild::CopyData));
    assert_eq!(site.classify(ChangeKind::Write, "/site/notes/cat.png"), None);
    assert_eq!(site.classify(ChangeKind::Write, "/elsewhere/cat.png"), None);
    assert_eq!(site.classify(ChangeKind::Other, "/site/notes/a.md"), None);
    assert_eq!(Rebuild::CopyPublic.steps(&site), vec![BuildStep::CopyPublic]);
    assert_eq!(Rebuild::CopyData.steps(&site), vec![BuildStep::CopyData]);
}

#[test]
fn what_is_asked_for_during_a_build_waits() {
    let mut site = site();
    assert_eq!(site.handle_watch_event(&write("/site/a.md")), Some(Rebuild::Markdown));
    assert_eq!(site.handle_watch_event(&write("/site/b.md")), None);
    assert_eq!(site.handle_watch_event(&write("/site/c.md")), None);
    assert_eq!(site.handle_watch_event(&write("/site/_esker/public/x.css")), None);
    assert_eq!(site.pending, vec![Rebuild::Markdown, Rebuild::CopyPublic]);
    assert_eq!(site.state, BuildState::Scanning);
    assert_eq!(site.finish_build(true), Some(Rebuild::Markdown));
    assert_eq!(site.state, BuildState::Scanning);
    assert_eq!(site.finish_build(true), Some(Rebuild::CopyPublic));
    assert_eq!(site.state, BuildState::Idle);
    assert_eq!(site.finish_build(true), None);
    assert_eq!(site.state, BuildState::Idle);
}

#[test]
fn a_build_from_nothing_takes_the_place_of_all_that_waits() {
    let mut site = site();
    assert_eq!(site.handle_watch_event(&write("/site/a.md")), Some(Rebuild::Markdown));
    assert_eq!(site.handle_watch_event(&write("/site/attachments/x.png")), None);
    assert_eq!(site.handle_watch_event(&write("/site/b.md")), None);
    assert_eq!(site.handle_watch_event(&write("/site/_esker/config.yaml")), None);
    assert_eq!(site.pending, vec![Rebuild::Full]);
    assert_eq!(site.handle_watch_event(&write("/site/c.md")), None);
    assert_eq!(site.pending, vec![Rebuild::Full]);
    assert_eq!(site.finish_build(false), Some(Rebuild::Full));
    assert_eq!(site.state, BuildState::Scanning);
    assert_eq!(site.finish_build(false), None);
    assert_eq!(site.state, BuildState::Failed);
    assert_eq!(site.handle_watch_event(&write("/site/c.md")), Some(Rebuild::Markdown));
    assert_eq!(site.state, BuildState::Scanning);
}

#[test]
fn a_copy_starts_no_build() {
    let mut site = site();
    assert_eq!(site.handle_watch_event(&write("/site/_esker/public/x.css")), Some(Rebuild::CopyPublic));
    assert_eq!(site.state, BuildState::Idle);
    assert_eq!(site.handle_watch_event(&write("/site/notes.txt")), None);
    assert!(site.start_build());
    assert!(!site.start_build());
    assert_eq!(site.state, BuildState::Scanning);
}

#[test]
fn the_site_lies_in_its_directories() {
    let site = site();
    assert_eq!(site.dir_esker, "/site/_esker");
    assert_eq!(site.dir_esker_site, "/site/_esker/_site");
    assert_eq!(site.dir_esker_site_public, "/site/_esker/_site/public");
    assert_eq!(site.dir_esker_templates, "/site/_esker/templates");
    assert_eq!(site.dir_esker_public, "/site/_esker/public");
    assert_eq!(site.dir_esker_site_tags.as_deref(), Some("/site/_esker/_site/tags"));
    assert_eq!(site.dir_attachments.as_deref(), Some("/site/attachments"));
    assert_eq!(site.dir_esker_site_attachments.as_deref(), Some("/site/_esker/_site/attachments"));
    assert_eq!(
        site.create_required_directories_for_build(),
        vec!["/site/_esker", "/site/_esker/public", "/site/_esker/_site/public", "/site/_esker/attachments"]
    );
    assert_eq!(site.build_with_baseurl(String::from("a/b.html")), "https://example.org/a/b.html");
    let themed = Site::new(
        String::from("/site"),
        Config {
            url: String::from("u"),
            title: String::from("t"),
            attachment_directory: None,
            description: None,
            ignored_directories: None,
            tags_url: None,
            theme: Some(String::from("dark")),
        },
    );
    assert_eq!(themed.dir_esker_templates, "/site/_esker/themes/dark/templates");
    assert_eq!(themed.dir_esker_public, "/site/_esker/themes/dark/public");
    assert_eq!(themed.dir_esker_site_tags, None);
}

#[test]
fn the_settings_of_a_watched_site_point_to_this_machine() {
    let config = Config {
        url: String::from("https://example.org"),
        title: String::from("t"),
        attachment_directory: None,
        description: None,
        ignored_directories: None,
        tags_url: None,
        theme: None,
    };
    let watched = Config::new(config.clone(), Some(8080));
    assert_eq!(watched.url, "http://localhost:8080");
    assert_eq!(watched.title, "t");
    assert_eq!(Config::new(config.clone(), Some(0)).url, "http://localhost:0");
    assert_eq!(Config::new(config.clone(), Some(65535)).url, "http://localhost:65535");
    assert_eq!(Config::new(config, None).url, "https://example.org");
}

#[test]
fn the_changes_of_a_short_while_start_one_build() {
    let mut site = site();
    let asked = site.handle_watch_events(&vec![
        write("/site/posts/first.md"),
        write("/site/posts/second.md"),
        write("/site/readme.txt"),
        write("/site/posts/first.md"),
    ]);
    assert_eq!(asked, Some(Rebuild::Markdown));
    assert_eq!(site.state, BuildState::Scanning);
    assert!(site.pending.is_empty());
    assert_eq!(site.finish_build(true), None);
    assert_eq!(site.state, BuildState::Idle);

    let asked = site.handle_watch_events(&vec![
        write("/site/posts/first.md"),
        write("/site/_esker/templates/single.html"),
        write("/site/posts/second.md"),
    ]);
    assert_eq!(asked, Some(Rebuild::Full));
    assert_eq!(site.state, BuildState::Scanning);
    assert!(site.pending.is_empty());

    let waits = site.handle_watch_events(&vec![
        write("/site/posts/first.md"),
        write("/site/posts/second.md"),
    ]);
    assert_eq!(waits, None);
    assert_eq!(site.state, BuildState::Scanning);
    assert_eq!(site.pending, vec![Rebuild::Markdown]);
    assert_eq!(site.finish_build(true), Some(Rebuild::Markdown));
    assert_eq!(site.finish_build(true), None);

    assert_eq!(site.handle_watch_events(&Vec::new()), None);
    assert_eq!(site.handle_watch_events(&vec![write("/site/readme.txt")]), None);
    assert_eq!(site.state, BuildState::Idle);
    assert!(site.pending.is_empty());
}
