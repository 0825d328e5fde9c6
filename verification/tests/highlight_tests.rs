use esker::parser::syntax_highlight::{
    escape_html, parse_code_spec, push_code_highlight, strip_span, syntect_lang_name, CodeBlockSyntaxHighlight,
    HighlightError, HighlightSpec, Highlighter,
};
use pulldown_cmark::{html, Event, Options, Parser, Tag};

fn convert(s: &str) -> String {
    let highlighter = Highlighter::new();
    let events: Vec<_> = Parser::new_ext(s, Options::all()).collect();
    let transformed = CodeBlockSyntaxHighlight::new(events)
        .collect(&highlighter.set)
        .expect("the code block is highlighted");
    let mut body = String::new();
    html::push_html(&mut body, transformed.into_iter());
    body
}

#[test]
fn test_thing() {
    let s = r"
```rust
let x = 2;
```
";
    let res = convert(s);
    println!("{:?}", res);
    assert!(res.starts_with(r#"<pre class="syntax-code"><code class="highlight code rust">"#));
    assert!(res.ends_with("</code></pre>"));
}

#[test]
fn python_block_is_highlighted_not_escaped() {
    let res = convert("```python\nx = 1\n```\n");
    assert!(res.contains(r#"<code class="highlight code python">"#));
    assert!(res.contains("<span class=\"syntax-"));
    assert!(!res.contains("<code>x = 1"));
}

#[test]
fn unknown_language_falls_back_to_escaped_text() {
    let res = convert("```nosuchlanguage\na < b && c > \"d\" / 'e'\n```\n");
    assert_eq!(
        res,
        "<pre class=\"syntax-code\"><code>a &lt; b &amp;&amp; c &gt; &quot;d&quot; &#x2F; &#x27;e&#x27;\n</code></pre>"
    );
}

#[test]
fn empty_language_falls_back_to_escaped_text() {
    let res = convert("```\nplain <text>\n```\n");
    assert_eq!(res, "<pre class=\"syntax-code\"><code>plain &lt;text&gt;\n</code></pre>");
}

#[test]
fn malformed_language_is_an_error() {
    let highlighter = Highlighter::new();
    let events: Vec<_> = Parser::new_ext("```rust,no_run\nlet x = 2;\n```\n", Options::all()).collect();
    let r = CodeBlockSyntaxHighlight::new(events).collect(&highlighter.set);
    assert_eq!(r.err(), Some(HighlightError::MalformedLanguage));
    assert_eq!(parse_code_spec("c++"), Err(HighlightError::MalformedLanguage));
    assert_eq!(parse_code_spec(""), Ok(None));
    assert_eq!(parse_code_spec("rust"), Ok(Some(String::from("rust"))));
    assert_eq!(parse_code_spec("données"), Ok(Some(String::from("données"))));
}

#[test]
fn language_names_are_mapped() {
    assert_eq!(syntect_lang_name("python3"), "Python");
    assert_eq!(syntect_lang_name("shell"), "Shell-Unix-Generic");
    assert_eq!(syntect_lang_name("elm"), "Elm");
    assert_eq!(syntect_lang_name("toml"), "toml");
}

#[test]
fn syntax_is_found_by_name_then_by_extension() {
    let highlighter = Highlighter::new();
    let by_name = HighlightSpec::find(&highlighter.set, "rust").expect("found by name");
    assert_eq!(by_name.html_id, "rust");
    let by_extension = HighlightSpec::find(&highlighter.set, "rs").expect("found by extension");
    assert_eq!(by_extension.html_id, "rust");
    assert!(HighlightSpec::find(&highlighter.set, "").is_none());
    assert!(HighlightSpec::find(&highlighter.set, "nosuchlanguage").is_none());
}

#[test]
fn outer_span_is_stripped() {
    let chars = |s: &str| s.chars().collect::<Vec<char>>();
    assert_eq!(
        strip_span(&chars("<span class=\"a\">  inner <span>x</span> </span>")),
        Some(chars("inner <span>x</span>"))
    );
    assert_eq!(strip_span(&chars("<span >x</span>")), None);
    assert_eq!(strip_span(&chars("<span a></span>")), None);
    assert_eq!(strip_span(&chars("<div a>x</span>")), None);
    assert_eq!(strip_span(&chars("<span a>x</span>\n")), None);
}

#[test]
fn code_element_is_appended() {
    let highlighter = Highlighter::new();
    let mut s = String::from("before");
    push_code_highlight(&mut s, &highlighter.set, None, "a<b").unwrap();
    assert_eq!(s, "before<code>a&lt;b</code>");
}

#[test]
fn the_tokenizer_reads_footnotes_and_struck_through_text() {
    assert_eq!(esker::markdown::FOOTNOTES, Options::ENABLE_FOOTNOTES.bits());
    assert_eq!(esker::markdown::STRIKETHROUGH, Options::ENABLE_STRIKETHROUGH.bits());
    let events = esker::markdown::tokenize("~~gone~~ and a note[^1]\n\n[^1]: here\n");
    assert!(events.contains(&Event::Start(Tag::Strikethrough)));
    assert!(events.iter().any(|e| matches!(e, Event::FootnoteReference(_))));
    let table = esker::markdown::tokenize("| a |\n|---|\n| b |\n");
    assert!(!table.iter().any(|e| matches!(e, Event::Start(Tag::Table(_)))));
}

#[test]
fn slugs_are_lower_case_words_with_hyphens() {
    assert_eq!(esker::slug::slugify("Hello, World!"), "hello-world");
    assert_eq!(esker::slug::slugify("  --Æther & Co.  "), "aether-co");
    assert_eq!(esker::slug::slugify(""), "");
    assert_eq!(esker::slug::slugify("Shell-Unix-Generic"), "shell-unix-generic");
}

#[test]
fn text_is_escaped_as_the_escaping_crate_does() {
    assert_eq!(escape_html("a < b && c > \"d\" / 'e'"), "a &lt; b &amp;&amp; c &gt; &quot;d&quot; &#x2F; &#x27;e&#x27;");
    assert_eq!(escape_html(""), "");
    assert_eq!(escape_html("plain text"), "plain text");
    for text in ["<script>alert('x')</script>", "a&b", "x = 1", "\u{e9}t\u{e9} </p>", "=`{}[]"] {
        assert_eq!(escape_html(text), html_escape::encode_safe(text).into_owned());
    }
}
