//! Fenced code blocks become highlighted HTML.

use vstd::prelude::*;
use crate::markdown::{html_piece, look, make_html, shape, EventQueue, Seen, Shape};
use crate::slug::{slug_of, slugify};
use crate::text::{
    chars_of, ends_with, first_index_of, index_of, matches_at, opt_view, push_all, slice_of,
    starts_with, str_eq, string_of, trim, trim_chars, views,
};
use pulldown_cmark::Event;
use regex::Regex;
use syntect::html::{ClassStyle, ClassedHTMLGenerator};
use syntect::parsing::{SyntaxReference, SyntaxSet};

verus! {

#[verifier::external_type_specification]
#[verifier::external_body]
pub struct ExSyntaxSet(SyntaxSet);

#[verifier::external_type_specification]
#[verifier::external_body]
pub struct ExSyntaxReference(SyntaxReference);

#[verifier::external_type_specification]
#[verifier::external_body]
pub struct ExClassedHTMLGenerator<'a>(ClassedHTMLGenerator<'a>);

/// Why a code block could not be highlighted. Each of these stops the build.
#[derive(Debug, Clone, Copy, PartialEq, Eq, Structural)]
pub enum HighlightError {
    /// The language of the block is not a single word.
    MalformedLanguage,
    /// The highlighter gave up on a line of the code.
    LineRejected,
    /// What the highlighter wrote is not wrapped in one outer span.
    UnexpectedMarkup,
}

/// The syntax of `set` with the name `name`, if it has one.
pub uninterp spec fn syntax_named(set: SyntaxSet, name: Seq<char>) -> Option<SyntaxReference>;

/// The syntax of `set` for files with the extension `extension`, if it has one.
pub uninterp spec fn syntax_for_extension(set: SyntaxSet, extension: Seq<char>) -> Option<
    SyntaxReference,
>;

/// The name of a syntax.
pub uninterp spec fn syntax_name(syntax: SyntaxReference) -> Seq<char>;

/// The generator that writes HTML for `syntax` of `set`, its classes
/// starting with `prefix`, before it has seen a line.
pub uninterp spec fn fresh_generator(
    syntax: SyntaxReference,
    set: SyntaxSet,
    prefix: Seq<char>,
) -> ClassedHTMLGenerator<'static>;

/// Whether the generator takes `line`, and the generator after it.
pub uninterp spec fn after_line(g: ClassedHTMLGenerator<'static>, line: Seq<char>) -> (
    bool,
    ClassedHTMLGenerator<'static>,
);

/// The HTML that a generator has written when it is closed.
pub uninterp spec fn finished_html(g: ClassedHTMLGenerator<'static>) -> Seq<char>;

/// Whether `text` holds a match of the regular expression `pattern`; nothing
/// where `pattern` is none.
pub uninterp spec fn regex_match(pattern: Seq<char>, text: Seq<char>) -> Option<bool>;

/// `SyntaxSet::load_defaults_newlines` of syntect: the syntaxes that syntect
/// comes with.
#[verifier::external_body]
pub(crate) fn default_syntaxes() -> SyntaxSet {
    SyntaxSet::load_defaults_newlines()
}

/// `SyntaxSet::find_syntax_by_name` of syntect.
#[verifier::external_body]
pub(crate) fn find_by_name<'a>(set: &'a SyntaxSet, name: &str) -> (r: Option<&'a SyntaxReference>)
    ensures
        deref_syntax(r) == syntax_named(*set, name@),
{
    set.find_syntax_by_name(name)
}

/// `SyntaxSet::find_syntax_by_extension` of syntect.
#[verifier::external_body]
pub(crate) fn find_by_extension<'a>(set: &'a SyntaxSet, extension: &str) -> (r: Option<
    &'a SyntaxReference,
>)
    ensures
        deref_syntax(r) == syntax_for_extension(*set, extension@),
{
    set.find_syntax_by_extension(extension)
}

/// The field `name` of syntect's `SyntaxReference`.
#[verifier::external_body]
pub(crate) fn name_of(syntax: &SyntaxReference) -> (r: String)
    ensures
        r@ == syntax_name(*syntax),
{
    syntax.name.clone()
}

/// `ClassedHTMLGenerator::new_with_class_style` of syntect, with the style
/// that puts `prefix` before each class. The syntax has to be one of the
/// set: syntect may panic on a line otherwise.
#[verifier::external_body]
pub(crate) fn start_generator<'a>(
    syntax: &'a SyntaxReference,
    set: &'a SyntaxSet,
    prefix: &'static str,
) -> (r: ClassedHTMLGenerator<'a>)
    requires
        belongs(*set, *syntax),
    ensures
        r == fresh_generator(*syntax, *set, prefix@),
{
    ClassedHTMLGenerator::new_with_class_style(syntax, set, ClassStyle::SpacedPrefixed { prefix })
}

/// `ClassedHTMLGenerator::parse_html_for_line_which_includes_newline` of
/// syntect; whether it gave no error.
#[verifier::external_body]
pub(crate) fn feed_line<'a>(g: &mut ClassedHTMLGenerator<'a>, line: &str) -> (r: bool)
    ensures
        (r, *final(g)) == after_line(*old(g), line@),
{
    g.parse_html_for_line_which_includes_newline(line).is_ok()
}

/// `ClassedHTMLGenerator::finalize` of syntect.
#[verifier::external_body]
pub(crate) fn finish_generator<'a>(g: ClassedHTMLGenerator<'a>) -> (r: String)
    ensures
        r@ == finished_html(g),
{
    g.finalize()
}

/// `Regex::new` and `Regex::is_match` of the regex crate; nothing where the
/// pattern is no regular expression.
#[verifier::external_body]
pub(crate) fn regex_is_match(pattern: &str, text: &str) -> (r: Option<bool>)
    ensures
        r == regex_match(pattern@, text@),
{
    Some(Regex::new(pattern).ok()?.is_match(text))
}

/// A syntax is one of a set when the set gives it for some name or for some
/// extension.
pub open spec fn belongs(set: SyntaxSet, syntax: SyntaxReference) -> bool {
    ||| exists|name: Seq<char>| #[trigger] syntax_named(set, name) == Some(syntax)
    ||| exists|extension: Seq<char>|
        #[trigger] syntax_for_extension(set, extension) == Some(syntax)
}

/// What a reference to a syntax refers to.
pub open spec fn deref_syntax(r: Option<&SyntaxReference>) -> Option<SyntaxReference> {
    match r {
        Some(s) => Some(*s),
        None => None,
    }
}

/// One character as HTML text.
pub open spec fn escaped_char(c: char) -> Seq<char> {
    if c == '&' {
        "&amp;"@
    } else if c == '<' {
        "&lt;"@
    } else if c == '>' {
        "&gt;"@
    } else if c == '"' {
        "&quot;"@
    } else if c == '\'' {
        "&#x27;"@
    } else if c == '/' {
        "&#x2F;"@
    } else {
        seq![c]
    }
}

/// A text as HTML text, character by character.
pub open spec fn escaped(text: Seq<char>) -> Seq<char>
    decreases text.len(),
{
    if text.len() == 0 {
        Seq::empty()
    } else {
        escaped(text.drop_last()) + escaped_char(text.last())
    }
}

/// A text as HTML text: the six characters that HTML reads as markup are
/// written as entities, every other character stays.
pub fn escape_html(text: &str) -> (r: String)
    ensures
        r@ == escaped(text@),
{
    let chars = chars_of(text);
    let mut out: Vec<char> = Vec::new();
    let mut i: usize = 0;
    assert(chars@.take(0) =~= Seq::<char>::empty());
    while i < chars.len()
        invariant
            i <= chars.len(),
            out@ == escaped(chars@.take(i as int)),
        decreases chars.len() - i,
    {
        let c = chars[i];
        proof {
            assert(chars@.take(i + 1).drop_last() == chars@.take(i as int));
            assert(chars@.take(i + 1).last() == c);
        }
        if c == '&' {
            push_all(&mut out, &chars_of("&amp;"));
        } else if c == '<' {
            push_all(&mut out, &chars_of("&lt;"));
        } else if c == '>' {
            push_all(&mut out, &chars_of("&gt;"));
        } else if c == '"' {
            push_all(&mut out, &chars_of("&quot;"));
        } else if c == '\'' {
            push_all(&mut out, &chars_of("&#x27;"));
        } else if c == '/' {
            push_all(&mut out, &chars_of("&#x2F;"));
        } else {
            let ghost before = out@;
            out.push(c);
            assert(out@ =~= before + seq![c]);
        }
        i += 1;
    }
    assert(chars@.take(chars.len() as int) == chars@);
    string_of(&out)
}

/// The name under which the highlighter knows a language.
pub open spec fn canonical_name(lang: Seq<char>) -> Seq<char> {
    if lang == "elixir"@ {
        "Elixir"@
    } else if lang == "clojure"@ {
        "Clojure"@
    } else if lang == "haskell"@ {
        "Haskell"@
    } else if lang == "perl"@ {
        "Perl"@
    } else if lang == "python"@ {
        "Python"@
    } else if lang == "python3"@ {
        "Python"@
    } else if lang == "racket"@ {
        "Racket"@
    } else if lang == "ruby"@ {
        "Ruby"@
    } else if lang == "rust"@ {
        "Rust"@
    } else if lang == "shell"@ {
        "Shell-Unix-Generic"@
    } else if lang == "elm"@ {
        "Elm"@
    } else {
        lang
    }
}

/// The pattern of a language tag: one word.
pub open spec fn word_pattern() -> Seq<char> {
    "^\\w+$"@
}

/// The language that a code block names: none where the tag is empty, the
/// tag where it is one word, an error otherwise.
pub open spec fn code_spec(lang: Seq<char>) -> Result<Option<Seq<char>>, HighlightError> {
    if lang.len() == 0 {
        Ok(None)
    } else if regex_match(word_pattern(), lang) == Some(true) {
        Ok(Some(lang))
    } else {
        Err(HighlightError::MalformedLanguage)
    }
}

/// The syntax for a language: the one named like it, else the one for files
/// with it as extension. An empty language has none.
pub open spec fn find_syntax(set: SyntaxSet, given: Seq<char>) -> Option<SyntaxReference> {
    if given.len() == 0 {
        None
    } else {
        match syntax_named(set, canonical_name(given)) {
            Some(s) => Some(s),
            None => syntax_for_extension(set, canonical_name(given)),
        }
    }
}

/// The lines of a text, each with the line feed that ends it.
pub open spec fn ending_lines(s: Seq<char>) -> Seq<Seq<char>>
    decreases s.len(),
{
    if s.len() == 0 {
        Seq::empty()
    } else {
        let i = first_index_of(s, '\n');
        let cut = if 0 <= i < s.len() {
            i + 1
        } else {
            s.len() as int
        };
        seq![s.take(cut)] + ending_lines(s.skip(cut))
    }
}

/// The generator after the lines, as long as it takes them: whether it took
/// them all, and the generator then.
pub open spec fn fed(g: ClassedHTMLGenerator<'static>, lines: Seq<Seq<char>>) -> (
    bool,
    ClassedHTMLGenerator<'static>,
)
    decreases lines.len(),
{
    if lines.len() == 0 {
        (true, g)
    } else {
        let before = fed(g, lines.drop_last());
        if before.0 {
            after_line(before.1, lines.last())
        } else {
            before
        }
    }
}

/// The prefix of the classes in highlighted code.
pub open spec fn class_prefix() -> Seq<char> {
    "syntax-"@
}

/// What stands inside the outer span of `markup`, trimmed: `markup` starts
/// with `<span `, at least one character follows up to the first `>`, and it
/// ends with `</span>` behind at least one more character. Nothing where
/// `markup` is not of that form.
pub open spec fn span_inner(markup: Seq<char>) -> Option<Seq<char>> {
    let open = "<span "@;
    let close = "</span>"@;
    if !starts_with(markup, open) {
        None
    } else {
        let tail = markup.skip(open.len() as int);
        let gt = first_index_of(tail, '>');
        if gt < 1 || gt >= tail.len() {
            None
        } else {
            let body = tail.skip(gt + 1);
            if body.len() > close.len() && ends_with(body, close) {
                Some(trim(body.take(body.len() - close.len())))
            } else {
                None
            }
        }
    }
}

/// The highlighted code of a block.
pub open spec fn highlighted(set: SyntaxSet, syntax: SyntaxReference, code: Seq<char>) -> Result<
    Seq<char>,
    HighlightError,
> {
    let done = fed(fresh_generator(syntax, set, class_prefix()), ending_lines(code));
    if !done.0 {
        Err(HighlightError::LineRejected)
    } else {
        match span_inner(finished_html(done.1)) {
            Some(inner) => Ok(inner),
            None => Err(HighlightError::UnexpectedMarkup),
        }
    }
}

/// The `code` element of a block: highlighted and with the class of its
/// syntax where the language has a syntax, plain escaped text otherwise.
pub open spec fn code_markup(set: SyntaxSet, lang: Option<Seq<char>>, code: Seq<char>) -> Result<
    Seq<char>,
    HighlightError,
> {
    let syntax = match lang {
        Some(l) => find_syntax(set, l),
        None => None,
    };
    match syntax {
        Some(s) => match highlighted(set, s, code) {
            Ok(h) => Ok(
                "<code class=\"highlight code "@ + slug_of(syntax_name(s)) + "\">"@ + h
                    + "</code>"@,
            ),
            Err(e) => Err(e),
        },
        None => Ok("<code>"@ + escaped(code) + "</code>"@),
    }
}

/// How many events at the start of `events` are texts.
pub open spec fn text_run(events: Seq<Event<'static>>) -> int
    decreases events.len(),
{
    if events.len() > 0 && shape(events[0]) is Text {
        1 + text_run(events.skip(1))
    } else {
        0
    }
}

/// The texts of the first `n` events, one after the other.
pub open spec fn run_text(events: Seq<Event<'static>>, n: int) -> Seq<char>
    decreases n,
{
    if n <= 0 || n > events.len() {
        Seq::empty()
    } else {
        run_text(events, n - 1) + (match shape(events[n - 1]) {
            Shape::Text(t) => t,
            _ => Seq::empty(),
        })
    }
}

/// What is left behind a code block: the events behind its texts, without
/// the first of them, which closes the block.
pub open spec fn behind_block(body: Seq<Event<'static>>) -> Seq<Event<'static>> {
    let n = text_run(body);
    if n < body.len() {
        body.skip(n + 1)
    } else {
        Seq::empty()
    }
}

/// The HTML of a code block.
pub open spec fn block_html(set: SyntaxSet, lang: Option<Seq<char>>, code: Seq<char>) -> Result<
    Seq<char>,
    HighlightError,
> {
    match code_markup(set, lang, code) {
        Ok(m) => Ok("<pre class=\"syntax-code\">"@ + m + "</pre>"@),
        Err(e) => Err(e),
    }
}

/// What comes out next, and what is left to read. A fenced code block comes
/// out as one piece of HTML; it takes the texts that follow it and the event
/// behind them. A block whose language is malformed gives an error and takes
/// nothing but its opening. Any other event comes out as it is.
pub open spec fn code_step(set: SyntaxSet, rest: Seq<Event<'static>>) -> (
    Result<Option<Event<'static>>, HighlightError>,
    Seq<Event<'static>>,
) {
    if rest.len() == 0 {
        (Ok(None), rest)
    } else {
        match shape(rest[0]) {
            Shape::FencedCode { lang } => match code_spec(lang) {
                Err(e) => (Err(e), rest.skip(1)),
                Ok(l) => {
                    let body = rest.skip(1);
                    let html = block_html(set, l, run_text(body, text_run(body)));
                    match html {
                        Ok(h) => (Ok(Some(html_piece(h))), behind_block(body)),
                        Err(e) => (Err(e), behind_block(body)),
                    }
                },
            },
            _ => (Ok(Some(rest[0])), rest.skip(1)),
        }
    }
}

/// Everything that comes out of `rest`, step by step, or the first error.
pub open spec fn code_all(set: SyntaxSet, rest: Seq<Event<'static>>) -> Result<
    Seq<Event<'static>>,
    HighlightError,
>
    decreases rest.len(),
{
    let (out, left) = code_step(set, rest);
    match out {
        Err(e) => Err(e),
        Ok(None) => Ok(Seq::empty()),
        Ok(Some(e)) => if left.len() < rest.len() {
            match code_all(set, left) {
                Ok(tail) => Ok(seq![e] + tail),
                Err(e) => Err(e),
            }
        } else {
            Ok(seq![e])
        },
    }
}

/// The run of texts stays within the events.
pub proof fn lemma_text_run(events: Seq<Event<'static>>)
    ensures
        0 <= text_run(events) <= events.len(),
        text_run(events) < events.len() ==> !(shape(events[text_run(events)]) is Text),
    decreases events.len(),
{
    if events.len() > 0 && shape(events[0]) is Text {
        lemma_text_run(events.skip(1));
    }
}

/// Where the first `n` events are texts, the run of texts is `n` more than
/// it is behind them.
pub proof fn lemma_text_run_after(events: Seq<Event<'static>>, n: int)
    requires
        0 <= n <= events.len(),
        forall|j: int| 0 <= j < n ==> shape(events[j]) is Text,
    ensures
        text_run(events) == n + text_run(events.skip(n)),
    decreases n,
{
    if n > 0 {
        let tail = events.skip(1);
        assert forall|j: int| 0 <= j < n - 1 implies shape(tail[j]) is Text by {
            assert(tail[j] == events[j + 1]);
        }
        lemma_text_run_after(tail, n - 1);
        assert(tail.skip(n - 1) == events.skip(n));
    } else {
        assert(events.skip(0) == events);
    }
}

/// A step that gives an event leaves less to read.
pub proof fn lemma_code_step_shrinks(set: SyntaxSet, rest: Seq<Event<'static>>)
    ensures
        code_step(set, rest).0 matches Ok(Some(e)) ==> code_step(set, rest).1.len() < rest.len(),
{
    if rest.len() > 0 {
        lemma_text_run(rest.skip(1));
    }
}

/// The name under which the highlighter knows a language.
pub fn syntect_lang_name<'a>(lang: &'a str) -> (r: &'a str)
    ensures
        r@ == canonical_name(lang@),
{
    if str_eq(lang, "elixir") {
        "Elixir"
    } else if str_eq(lang, "clojure") {
        "Clojure"
    } else if str_eq(lang, "haskell") {
        "Haskell"
    } else if str_eq(lang, "perl") {
        "Perl"
    } else if str_eq(lang, "python") {
        "Python"
    } else if str_eq(lang, "python3") {
        "Python"
    } else if str_eq(lang, "racket") {
        "Racket"
    } else if str_eq(lang, "ruby") {
        "Ruby"
    } else if str_eq(lang, "rust") {
        "Rust"
    } else if str_eq(lang, "shell") {
        "Shell-Unix-Generic"
    } else if str_eq(lang, "elm") {
        "Elm"
    } else {
        lang
    }
}

/// The language that a code block names.
pub fn parse_code_spec(lang: &str) -> (r: Result<Option<String>, HighlightError>)
    ensures
        match r {
            Ok(Some(l)) => code_spec(lang@) == Ok::<Option<Seq<char>>, HighlightError>(
                Some(l@),
            ) && l@ == lang@,
            Ok(None) => code_spec(lang@) == Ok::<Option<Seq<char>>, HighlightError>(None),
            Err(e) => code_spec(lang@) == Err::<Option<Seq<char>>, HighlightError>(e),
        },
{
    if lang.unicode_len() == 0 {
        return Ok(None);
    }
    match regex_is_match("^\\w+$", lang) {
        Some(true) => Ok(Some(lang.to_owned())),
        _ => Err(HighlightError::MalformedLanguage),
    }
}

/// The lines of a text, each with the line feed that ends it.
pub fn lines_with_endings(s: &Vec<char>) -> (r: Vec<Vec<char>>)
    ensures
        views(r@) == ending_lines(s@),
{
    let mut out: Vec<Vec<char>> = Vec::new();
    let mut start: usize = 0;
    proof {
        assert(s@.skip(0) == s@);
        assert(views(out@) + ending_lines(s@) == ending_lines(s@));
    }
    while start < s.len()
        invariant
            start <= s.len(),
            ending_lines(s@) == views(out@) + ending_lines(s@.skip(start as int)),
        decreases s.len() - start,
    {
        let rest = slice_of(s, start, s.len());
        assert(rest@ == s@.skip(start as int));
        let i = index_of(&rest, '\n');
        let cut = if i < rest.len() {
            i + 1
        } else {
            rest.len()
        };
        let line = slice_of(&rest, 0, cut);
        proof {
            assert(line@ == rest@.take(cut as int));
            assert(rest@.skip(cut as int) == s@.skip(start + cut));
            assert(views(out@.push(line)) == views(out@).push(line@));
            assert(views(out@) + (seq![line@] + ending_lines(s@.skip(start + cut))) == views(
                out@,
            ).push(line@) + ending_lines(s@.skip(start + cut)));
        }
        out.push(line);
        start = start + cut;
    }
    proof {
        assert(views(out@) + Seq::<Seq<char>>::empty() == views(out@));
    }
    out
}

/// What stands inside the outer span of `markup`, trimmed.
pub fn strip_span(markup: &Vec<char>) -> (r: Option<Vec<char>>)
    ensures
        match r {
            Some(inner) => span_inner(markup@) == Some(inner@),
            None => span_inner(markup@) is None,
        },
{
    let open = chars_of("<span ");
    let close = chars_of("</span>");
    if !matches_at(markup, 0, &open) {
        return None;
    }
    let tail = slice_of(markup, open.len(), markup.len());
    assert(tail@ == markup@.skip(open.len() as int));
    let gt = index_of(&tail, '>');
    if gt < 1 || gt >= tail.len() {
        return None;
    }
    let body = slice_of(&tail, gt + 1, tail.len());
    assert(body@ == tail@.skip(gt + 1));
    if body.len() > close.len() && matches_at(&body, body.len() - close.len(), &close) {
        let inner = slice_of(&body, 0, body.len() - close.len());
        assert(inner@ == body@.take(body.len() - close.len()));
        Some(trim_chars(&inner))
    } else {
        None
    }
}

/// A language that the highlighter has a syntax for.
pub struct HighlightSpec<'a> {
    /// The class that the highlighted code gets.
    pub html_id: String,
    pub syntax: &'a SyntaxReference,
}

impl<'a> HighlightSpec<'a> {
    /// The syntax for the language `given`, if the highlighter has one.
    pub fn find(set: &'a SyntaxSet, given: &str) -> (r: Option<Self>)
        ensures
            match r {
                Some(spec) => find_syntax(*set, given@) == Some(*spec.syntax)
                    && spec.html_id@ == slug_of(syntax_name(*spec.syntax)) && belongs(
                    *set,
                    *spec.syntax,
                ),
                None => find_syntax(*set, given@) is None,
            },
    {
        if given.unicode_len() == 0 {
            return None;
        }
        let mapped = syntect_lang_name(given);
        let syntax = match find_by_name(set, mapped) {
            Some(s) => s,
            None => match find_by_extension(set, mapped) {
                Some(s) => s,
                None => {
                    return None;
                },
            },
        };
        let name = name_of(syntax);
        Some(HighlightSpec { html_id: slugify(name.as_str()), syntax })
    }
}

/// The highlighted code of a block. The syntax has to be one of the set, as
/// every syntax is that was found in it.
#[verifier::loop_isolation(false)]
pub fn highlight<'a>(set: &'a SyntaxSet, spec: &HighlightSpec<'a>, code: &str) -> (r: Result<
    String,
    HighlightError,
>)
    requires
        belongs(*set, *spec.syntax),
    ensures
        match r {
            Ok(h) => highlighted(*set, *spec.syntax, code@) == Ok::<Seq<char>, HighlightError>(
                h@,
            ),
            Err(e) => highlighted(*set, *spec.syntax, code@) == Err::<Seq<char>, HighlightError>(
                e,
            ),
        },
{
    let mut generator = start_generator(spec.syntax, set, "syntax-");
    let text = chars_of(code);
    let lines = lines_with_endings(&text);
    let ghost start = generator;
    let ghost all = ending_lines(code@);
    let mut i: usize = 0;
    while i < lines.len()
        invariant
            i <= lines.len(),
            views(lines@) == all,
            fed(start, all.take(i as int)) == (true, generator),
        decreases lines.len() - i,
    {
        let line = string_of(&lines[i]);
        let ok = feed_line(&mut generator, line.as_str());
        proof {
            assert(all[i as int] == lines@[i as int]@);
            assert(all.take(i + 1).drop_last() == all.take(i as int));
            assert(all.take(i + 1).last() == all[i as int]);
        }
        if !ok {
            proof {
                lemma_fed_stays_failed(start, all, i + 1);
            }
            return Err(HighlightError::LineRejected);
        }
        i += 1;
    }
    assert(all.take(all.len() as int) == all);
    let generated = finish_generator(generator);
    match strip_span(&chars_of(generated.as_str())) {
        Some(inner) => Ok(string_of(&inner)),
        None => Err(HighlightError::UnexpectedMarkup),
    }
}

/// Once a line was not taken, no later line is fed.
pub proof fn lemma_fed_stays_failed(g: ClassedHTMLGenerator<'static>, lines: Seq<Seq<char>>, n: int)
    requires
        0 <= n <= lines.len(),
        !fed(g, lines.take(n)).0,
    ensures
        !fed(g, lines).0,
    decreases lines.len() - n,
{
    if n < lines.len() {
        assert(lines.take(n + 1).drop_last() == lines.take(n));
        lemma_fed_stays_failed(g, lines, n + 1);
    } else {
        assert(lines.take(n) == lines);
    }
}

/// Appends the `code` element of a block to `s`.
pub fn push_code_highlight(
    s: &mut String,
    set: &SyntaxSet,
    lang: Option<String>,
    code: &str,
) -> (r: Result<(), HighlightError>)
    ensures
        match r {
            Ok(()) => code_markup(*set, opt_view(lang), code@) is Ok && final(s)@ == old(s)@
                + code_markup(*set, opt_view(lang), code@)->Ok_0,
            Err(e) => code_markup(*set, opt_view(lang), code@) == Err::<Seq<char>, HighlightError>(
                e,
            ) && final(s)@ == old(s)@,
        },
{
    let found = match &lang {
        Some(l) => HighlightSpec::find(set, l.as_str()),
        None => None,
    };
    let mut piece: Vec<char> = Vec::new();
    match found {
        Some(spec) => {
            let h = highlight(set, &spec, code)?;
            push_all(&mut piece, &chars_of("<code class=\"highlight code "));
            push_all(&mut piece, &chars_of(spec.html_id.as_str()));
            push_all(&mut piece, &chars_of("\">"));
            push_all(&mut piece, &chars_of(h.as_str()));
            push_all(&mut piece, &chars_of("</code>"));
        },
        None => {
            push_all(&mut piece, &chars_of("<code>"));
            push_all(&mut piece, &chars_of(escape_html(code).as_str()));
            push_all(&mut piece, &chars_of("</code>"));
        },
    }
    let text = string_of(&piece);
    s.append(text.as_str());
    Ok(())
}

/// The syntaxes that code is highlighted with.
pub struct Highlighter {
    pub set: SyntaxSet,
}

impl Highlighter {
    /// The highlighter with the syntaxes that it comes with.
    pub fn new() -> Highlighter {
        Highlighter { set: default_syntaxes() }
    }
}

/// The stage of the pipeline that turns fenced code blocks into finished HTML.
pub struct CodeBlockSyntaxHighlight<'a> {
    parent: EventQueue<'a>,
}

impl<'a> CodeBlockSyntaxHighlight<'a> {
    /// The events that are still to be read.
    pub closed spec fn rest(&self) -> Seq<Event<'static>> {
        self.parent.rest()
    }

    pub fn new(parent: Vec<Event<'a>>) -> (r: Self)
        ensures
            r.rest() == parent@,
    {
        CodeBlockSyntaxHighlight { parent: EventQueue::new(parent) }
    }

    /// The next event of the stage; nothing when it has given all; an error
    /// where a code block cannot be highlighted.
    #[verifier::loop_isolation(false)]
    pub fn next(&mut self, set: &SyntaxSet) -> (r: Result<Option<Event<'a>>, HighlightError>)
        ensures
            r == code_step(*set, old(self).rest()).0,
            final(self).rest() == code_step(*set, old(self).rest()).1,
    {
        let first = match self.parent.pop_front() {
            Some(e) => e,
            None => {
                return Ok(None);
            },
        };
        let lang = match look(&first) {
            Seen::FencedCode { lang } => lang,
            _ => {
                return Ok(Some(first));
            },
        };
        let lang = parse_code_spec(lang.as_str())?;
        let ghost body = self.parent.rest();
        let mut code: Vec<char> = Vec::new();
        let ghost mut n: int = 0;
        proof {
            assert(body.skip(0) == body);
        }
        loop
            invariant
                0 <= n <= body.len(),
                self.parent.rest() == body.skip(n),
                forall|j: int| 0 <= j < n ==> shape(body[j]) is Text,
                code@ == run_text(body, n),
            decreases body.len() - n,
        {
            let e = match self.parent.pop_front() {
                Some(e) => e,
                None => {
                    proof {
                        lemma_text_run_after(body, n);
                        assert(body.skip(n).len() == 0);
                        assert(self.parent.rest() =~= behind_block(body));
                    }
                    break ;
                },
            };
            proof {
                assert(e == body[n]);
                assert(body.skip(n).skip(1) == body.skip(n + 1));
            }
            match look(&e) {
                Seen::Text(text) => {
                    push_all(&mut code, &chars_of(text.as_str()));
                    proof {
                        n = n + 1;
                    }
                },
                _ => {
                    proof {
                        lemma_text_run_after(body, n);
                        assert(body.skip(n)[0] == body[n]);
                        assert(text_run(body) == n);
                    }
                    break ;
                },
            }
        }
        let mut res = String::new();
        res.append("<pre class=\"syntax-code\">");
        let code_text = string_of(&code);
        push_code_highlight(&mut res, set, lang, code_text.as_str())?;
        res.append("</pre>");
        Ok(Some(make_html(res)))
    }

    /// All the events of the stage, or the first error.
    pub fn collect(self, set: &SyntaxSet) -> (r: Result<Vec<Event<'a>>, HighlightError>)
        ensures
            match r {
                Ok(events) => code_all(*set, self.rest()) == Ok::<
                    Seq<Event<'static>>,
                    HighlightError,
                >(events@),
                Err(e) => code_all(*set, self.rest()) == Err::<Seq<Event<'static>>, HighlightError>(
                    e,
                ),
            },
    {
        let mut stage = self;
        let mut out: Vec<Event<'a>> = Vec::new();
        loop
            invariant
                prepend(out@, code_all(*set, stage.rest())) == code_all(*set, self.rest()),
            decreases stage.rest().len(),
        {
            let ghost before = stage.rest();
            proof {
                lemma_code_step_shrinks(*set, before);
            }
            match stage.next(set) {
                Ok(Some(e)) => {
                    proof {
                        match code_all(*set, stage.rest()) {
                            Ok(tail) => {
                                assert(out@ + (seq![e] + tail) == out@.push(e) + tail);
                            },
                            Err(_) => {},
                        }
                    }
                    out.push(e);
                },
                Ok(None) => {
                    proof {
                        assert(out@ + Seq::<Event<'static>>::empty() == out@);
                    }
                    return Ok(out);
                },
                Err(e) => {
                    return Err(e);
                },
            }
        }
    }
}

/// A result with `head` put before what it gives.
pub open spec fn prepend(
    head: Seq<Event<'static>>,
    tail: Result<Seq<Event<'static>>, HighlightError>,
) -> Result<Seq<Event<'static>>, HighlightError> {
    match tail {
        Ok(t) => Ok(head + t),
        Err(e) => Err(e),
    }
}

} // verus!
