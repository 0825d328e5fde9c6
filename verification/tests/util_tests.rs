use esker::dates::{match_possible_dates, DateError, Moment};
use esker::path::{
    path_components, path_extension, path_file_name, path_file_stem, path_join, path_leads_to,
    path_with_extension,
};
use esker::text::{chars_of, lines_of, replace, split, string_of, trim_chars};
use esker::util::{naive_date_to_str, strip_pwd, under_pwd};

fn chars(s: &str) -> Vec<char> {
    s.chars().collect()
}

fn texts(v: Vec<Vec<char>>) -> Vec<String> {
    v.iter().map(|c| c.iter().collect()).collect()
}

#[test]
fn test_strip_pwd() {
    let full_path = String::from("/Users/tees/development/tees/esker/test_site");
    let short_path =
        String::from("/Users/tees/development/tees/esker/test_site/posts/private file.md");
    assert!(under_pwd(&full_path, &short_path));
    assert_eq!(strip_pwd(&full_path, &short_path), String::from("posts"));
}

#[test]
fn a_file_in_the_site_directory_itself_lies_in_no_directory() {
    assert!(under_pwd("/site", "/site/index.md"));
    assert_eq!(strip_pwd("/site", "/site/index.md"), "");
    assert_eq!(strip_pwd("/site/", "/site//a/b/c.md"), "a/b");
    assert!(!under_pwd("/site", "/site"));
    assert!(!under_pwd("/site", "/elsewhere/a.md"));
    assert!(!under_pwd("/site", "site/a.md"));
    assert!(!under_pwd("/site", "/sites/a.md"));
}

#[test]
fn test_naive_date_to_str() {
    let example_date_str = "2022-12-01 11:50";
    let ndt = match_possible_dates(example_date_str).unwrap();
    let res = naive_date_to_str(&ndt);
    assert_eq!(res, example_date_str);
}

#[test]
fn dates_are_read_in_four_forms() {
    let to_the_second = match_possible_dates("2022-12-01 11:50:30").unwrap();
    assert_eq!(to_the_second.timestamp, 1_669_895_430);
    assert_eq!(to_the_second.text, "2022-12-01 11:50:30");
    assert_eq!(to_the_second.label, "2022-12-01 11:50");
    let to_the_minute = match_possible_dates("2022-12-01 11:50").unwrap();
    assert_eq!(to_the_minute.timestamp, 1_669_895_400);
    assert_eq!(to_the_minute.nanos, 0);
    let day_only = match_possible_dates("2022-12-01").unwrap();
    assert_eq!(day_only.text, "2022-12-01 17:00:00");
    assert_eq!(day_only.timestamp, 1_669_914_000);
}

#[test]
fn what_is_no_date_is_not_recognised() {
    assert_eq!(match_possible_dates("yesterday").err(), Some(DateError::Unrecognized));
    assert_eq!(match_possible_dates("").err(), Some(DateError::Unrecognized));
    assert_eq!(match_possible_dates("2022-13-01").err(), Some(DateError::Unrecognized));
    assert_eq!(match_possible_dates("2022-12-01 25:00").err(), Some(DateError::Unrecognized));
}

#[test]
fn a_moment_shows_its_fraction_of_a_second() {
    let m = Moment::new(0, 500_000_000).unwrap();
    assert_eq!(m.text, "1970-01-01 00:00:00.500");
    assert_eq!(m.label, "1970-01-01 00:00");
    assert!(Moment::new(i64::MAX, 0).is_none());
    assert!(Moment::new(0, 2_000_000_000).is_none());
    let copy = m.copy();
    assert_eq!(copy.text, m.text);
    assert_eq!(copy.timestamp, 0);
}

#[test]
fn strings_and_characters_go_back_and_forth() {
    assert_eq!(chars_of("añb"), vec!['a', 'ñ', 'b']);
    assert_eq!(string_of(&vec!['a', 'ñ', 'b']), "añb");
    assert_eq!(string_of(&Vec::new()), "");
}

#[test]
fn texts_are_split_trimmed_and_replaced() {
    assert_eq!(texts(split(&chars("a,b,,c"), ',')), vec!["a", "b", "", "c"]);
    assert_eq!(texts(split(&chars(""), ',')), vec![""]);
    assert_eq!(texts(split(&chars(","), ',')), vec!["", ""]);
    assert_eq!(trim_chars(&chars("  \t a b \u{a0}\n")), chars("a b"));
    assert_eq!(trim_chars(&chars(" \n ")), chars(""));
    assert_eq!(replace(&chars("a%20b%20%2"), &chars("%20"), &chars("-")), chars("a-b-%2"));
    assert_eq!(replace(&chars("aaa"), &chars("aa"), &chars("b")), chars("ba"));
    assert_eq!(replace(&chars("abc"), &chars(""), &chars("x")), chars("abc"));
}

#[test]
fn lines_end_at_line_feeds() {
    assert_eq!(texts(lines_of(&chars("a\nb\r\nc"))), vec!["a", "b", "c"]);
    assert_eq!(texts(lines_of(&chars("a\n\n"))), vec!["a", ""]);
    assert_eq!(texts(lines_of(&chars("a\r"))), vec!["a\r"]);
    assert!(lines_of(&chars("")).is_empty());
}

#[test]
fn paths_have_components_names_and_extensions() {
    assert_eq!(texts(path_components(&chars("/a//b/c.md"))), vec!["a", "b", "c.md"]);
    assert_eq!(path_file_name(&chars("/a/b/c.md")), Some(chars("c.md")));
    assert_eq!(path_file_name(&chars("/a/b/")), Some(chars("b")));
    assert_eq!(path_file_name(&chars("/")), None);
    assert_eq!(path_file_name(&chars("a/..")), None);
    assert_eq!(path_file_stem(&chars("/a/b/c.tar.gz")), Some(chars("c.tar")));
    assert_eq!(path_file_stem(&chars(".hidden")), Some(chars(".hidden")));
    assert_eq!(path_extension(&chars("/a/b/c.md")), Some(chars("md")));
    assert_eq!(path_extension(&chars("/a/b/c")), None);
    assert_eq!(path_extension(&chars(".hidden")), None);
    assert_eq!(path_with_extension(&chars("a/b.md"), &chars("html")), chars("a/b.html"));
    assert_eq!(path_with_extension(&chars("a/b"), &chars("html")), chars("a/b.html"));
    assert_eq!(path_with_extension(&chars("a/b/"), &chars("html")), chars("a/b.html"));
    assert_eq!(path_with_extension(&chars("a/b.md"), &chars("")), chars("a/b"));
    assert_eq!(path_with_extension(&chars(""), &chars("html")), chars(""));
    assert_eq!(path_join(&chars("a"), &chars("b")), chars("a/b"));
    assert_eq!(path_join(&chars("a/"), &chars("b")), chars("a/b"));
    assert_eq!(path_join(&chars(""), &chars("b")), chars("b"));
    assert_eq!(path_join(&chars("a"), &chars("/b")), chars("/b"));
    assert_eq!(path_join(&chars("a"), &chars("")), chars("a/"));
    assert!(path_leads_to(&chars("/a/b"), &chars("/a/b/c")));
    assert!(path_leads_to(&chars("/a/b"), &chars("/a/b")));
    assert!(!path_leads_to(&chars("/a/b"), &chars("/a/bc")));
    assert!(!path_leads_to(&chars("a"), &chars("/a/b")));
}
