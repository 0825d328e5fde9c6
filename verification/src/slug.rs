//! Slugs: texts made fit for a URL.

use vstd::prelude::*;

verus! {

/// The slug of a text, made with the given stop words and the given
/// separator: lower case, letters and digits only, runs of anything else
/// turned into one separator.
pub uninterp spec fn slug_with(text: Seq<char>, stop_words: Seq<char>, separator: Seq<char>) -> Seq<
    char,
>;

/// The slug of a text: no words are left out, and a hyphen separates.
pub open spec fn slug_of(text: Seq<char>) -> Seq<char> {
    slug_with(text, Seq::empty(), seq!['-'])
}

/// `slugify::slugify` of the slugify crate, without a limit on the length.
/// The result is a function of the text, the stop words and the separator.
/// The crate takes the first character of the separator as a byte, so that
/// character has to be there and has to be one of ASCII.
#[verifier::external_body]
fn slugify_with(text: &str, stop_words: &str, separator: &str) -> (r: String)
    requires
        separator@.len() > 0,
        (separator@[0] as u32) < 128,
    ensures
        r@ == slug_with(text@, stop_words@, separator@),
{
    slugify::slugify(text, stop_words, separator, None)
}

/// The slug of a text.
pub fn slugify(text: &str) -> (r: String)
    ensures
        r@ == slug_of(text@),
{
    proof {
        reveal_strlit("");
        reveal_strlit("-");
        assert(""@ =~= Seq::<char>::empty());
        assert("-"@ =~= seq!['-']);
    }
    slugify_with(text, "", "-")
}

} // verus!
