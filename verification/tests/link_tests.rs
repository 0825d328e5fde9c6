use esker::config::Config;
use esker::link::{EskerLinkType, Link, SiteLinks};
use esker::markdown::Mark;
use esker::site::Site;
use pulldown_cmark::{Event, LinkType, Tag};

fn site() -> Site {
    Site::new(
        String::from("/site"),
        Config {
            url: String::from("https://example.org"),
            title: String::from("Example"),
            attachment_directory: None,
            description: None,
            ignored_directories: None,
            tags_url: None,
            theme: None,
        },
    )
}

fn filled(url: &str, title: &str) -> Link {
    let mut link = Link::empty();
    link.fill_from_parser(
        &Mark::Link { url: String::from(url), title: String::from(title) },
        &site(),
        Some(String::from("https://example.org/from.html")),
        Some(String::from("From")),
    );
    link
}

#[test]
fn external_targets_are_recognised() {
    assert!(Link::is_external("http://example.org"));
    assert!(Link::is_external("https://example.org/a"));
    assert!(Link::is_external("www.example.org"));
    assert!(!Link::is_external("notes/today.md"));
    assert!(!Link::is_external("mailto:someone@example.org"));
    assert!(!Link::is_external("htt"));
    assert!(!Link::is_external(""));
    assert!(Link::is_internal("notes/today.md"));
    assert!(!Link::is_internal("https://example.org/a"));
    assert!(Link::is_mailto("mailto:someone@example.org"));
    assert!(!Link::is_mailto("someone@example.org"));
    assert!(!Link::is_attachment());
}

#[test]
fn an_empty_link_leads_nowhere() {
    let link = Link::empty();
    assert_eq!(link.url, "");
    assert_eq!(link.title, "");
    assert!(!link.is_internal);
    assert_eq!(link.originating_file_url, None);
    assert_eq!(link.originating_file_title, None);
    assert_eq!(link.link_type, EskerLinkType::Default);
    let links = SiteLinks::new();
    assert!(links.internal.is_empty());
    assert!(links.external.is_empty());
}

#[test]
fn internal_targets_are_made_of_slugs() {
    assert_eq!(
        Link::slugify_internal_url(String::from("projects/My Folder/A File.md")),
        "projects/my-folder/a-file"
    );
    assert_eq!(Link::slugify_internal_url(String::from("a%20file.md")), "a-file");
    assert_eq!(Link::slugify_internal_url(String::from("Über uns.md")), "uber-uns");
    assert_eq!(Link::slugify_internal_url(String::from("/abs/Path.md")), "/abs/path");
    assert_eq!(Link::slugify_internal_url(String::from("")), "");
    assert_eq!(Link::slugify_internal_url(String::from("archive.tar.gz")), "archive-tar");
}

#[test]
fn slugs_are_the_same_for_the_same_input_and_for_encoded_spaces() {
    let once = Link::slugify_internal_url(String::from("notes/My Day.md"));
    let twice = Link::slugify_internal_url(String::from("notes/My Day.md"));
    assert_eq!(once, twice);
    assert_eq!(once, "notes/my-day");
    assert_eq!(Link::slugify_internal_url(String::from("notes/My%20Day.md")), once);
    assert_eq!(Link::slugify_internal_url(String::from("notes/My-Day.md")), once);
}

#[test]
fn a_link_into_the_site_leads_to_the_page() {
    let link = filled("notes/My Day.md", "a title");
    assert_eq!(link.url, "https://example.org/notes/my-day.html");
    assert!(link.is_internal);
    assert_eq!(link.title, "a title");
    assert_eq!(link.originating_file_url.as_deref(), Some("https://example.org/from.html"));
    assert_eq!(link.originating_file_title.as_deref(), Some("From"));
    assert_eq!(link.link_type, EskerLinkType::Default);
}

#[test]
fn a_link_out_of_the_site_stays() {
    let link = filled("https://rust-lang.org/learn", "");
    assert_eq!(link.url, "https://rust-lang.org/learn");
    assert!(!link.is_internal);
    let www = filled("www.rust-lang.org", "");
    assert_eq!(www.url, "www.rust-lang.org");
    assert!(!www.is_internal);
}

#[test]
fn a_mail_address_stays_and_is_not_internal() {
    let link = filled("mailto:someone@example.org", "");
    assert_eq!(link.url, "mailto:someone@example.org");
    assert!(!link.is_internal);
    assert!(!Link::is_internal("mailto:a@b.c"));
    assert!(Link::is_internal("b.md"));
    assert!(!Link::is_internal("http://example.org"));
    assert!(!Link::is_internal("https://example.org"));
    assert!(!Link::is_internal("www.example.org"));
    let mail = filled("mailto:me@example.com", "");
    let mut site = site();
    site.add_link(mail);
    assert!(site.links.internal.is_empty());
    assert_eq!(site.links.external.len(), 1);
    assert_eq!(site.links.external[0].url, "mailto:me@example.com");
}

#[test]
fn the_event_of_a_link_carries_its_address() {
    let link = filled("b.md", "");
    let event = link.for_parser(&site());
    assert_eq!(
        event,
        Event::Start(Tag::Link(
            LinkType::Inline,
            "https://example.org/b.html".into(),
            "https://example.org/https://example.org/b.html".into()
        ))
    );
}

#[test]
fn an_image_of_the_site_is_looked_for_below_its_address() {
    let image = Event::Start(Tag::Image(LinkType::Inline, "img/A Cat.png".into(), "cat".into()));
    assert_eq!(
        Link::update_img_link(&image, "img/A Cat.png", &site()),
        Event::Start(Tag::Image(
            LinkType::Inline,
            "https://example.org/img/A Cat.png".into(),
            "cat".into()
        ))
    );
    let far = Event::Start(Tag::Image(LinkType::Inline, "https://far.org/x.png".into(), "".into()));
    assert_eq!(Link::update_img_link(&far, "https://far.org/x.png", &site()), far);
}

#[test]
fn links_are_copied_whole() {
    let link = filled("b.md", "t");
    let copy = link.clone();
    assert_eq!(copy, link);
    let kind = EskerLinkType::TaggedItem { date_created: String::from("2022-12-01 11:50:00") };
    assert_eq!(kind.clone(), kind);
}
