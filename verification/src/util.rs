//! Small helpers on paths.

use vstd::prelude::*;
use crate::dates::{formatted_date, minute_form, Moment};
use crate::path::{
    components, leads_to, parts_between, path_components, path_leads_to, path_of,
};
use crate::text::{chars_of, join_with, string_of};
use std::path::PathBuf;
use std::time::{Duration, SystemTime, UNIX_EPOCH};

verus! {

/// `p` names a file below the directory `pwd`: `pwd` leads to `p`, and `p` has
/// at least one component more.
pub open spec fn is_below(pwd: Seq<char>, p: Seq<char>) -> bool {
    leads_to(pwd, p) && components(pwd).len() < components(p).len()
}

/// The directory of `p` as seen from `pwd`: the components of `p` after those
/// of `pwd`, without the last one.
pub open spec fn dir_below(pwd: Seq<char>, p: Seq<char>) -> Seq<char> {
    join_with(
        components(p).subrange(components(pwd).len() as int, components(p).len() - 1),
        "/"@,
    )
}

#[verifier::external_type_specification]
#[verifier::external_body]
pub struct ExSystemTime(SystemTime);

#[verifier::external_type_specification]
#[verifier::external_body]
pub struct ExPathBuf(PathBuf);

/// How long after the start of 1970 a time lies; nothing where it lies
/// before it.
pub uninterp spec fn since_epoch(s: SystemTime) -> Option<Duration>;

/// The text that a path of the file system is shown as.
pub uninterp spec fn path_text(p: PathBuf) -> Seq<char>;

/// `Path::display` of std, written to a string: the path as text, with what
/// is no text in it replaced.
#[verifier::external_body]
fn display_path(p: &PathBuf) -> (r: String)
    ensures
        r@ == path_text(*p),
{
    p.display().to_string()
}

/// A path of the file system as text.
pub fn path_to_string(p: &PathBuf) -> (r: String)
    ensures
        r@ == path_text(*p),
{
    display_path(p)
}

/// `SystemTime::duration_since` of std, counted from `UNIX_EPOCH`: the time
/// that has passed since the start of 1970, or nothing where `s` lies before
/// it.
#[verifier::external_body]
fn duration_since_epoch(s: SystemTime) -> (r: Option<Duration>)
    ensures
        r == since_epoch(s),
{
    s.duration_since(UNIX_EPOCH).ok()
}

/// The time that has passed since the start of 1970, for a time that does
/// not lie before it.
pub fn get_time_in_ms(s: SystemTime) -> (r: Duration)
    requires
        since_epoch(s) is Some,
    ensures
        since_epoch(s) == Some(r),
{
    match duration_since_epoch(s) {
        Some(d) => d,
        None => vstd::pervasive::unreached(),
    }
}

/// The time that has passed since the start of 1970, if `s` does not lie
/// before it.
pub fn time_since_epoch(s: SystemTime) -> (r: Option<Duration>)
    ensures
        r == since_epoch(s),
{
    duration_since_epoch(s)
}

/// A date as pages show it: year, month and day, hour and minute.
pub fn naive_date_to_str(ndt: &Moment) -> (r: String)
    ensures
        r@ == ndt.label@,
        ndt.wf() ==> formatted_date(ndt.timestamp, ndt.nanos, minute_form()) == Some(r@),
{
    ndt.label.clone()
}

/// Whether `p` names a file below the directory `pwd`.
pub fn under_pwd(pwd: &str, p: &str) -> (r: bool)
    ensures
        r == is_below(pwd@, p@),
{
    let base = chars_of(pwd);
    let full = chars_of(p);
    if !path_leads_to(&base, &full) {
        return false;
    }
    let b = path_components(&base);
    let c = path_components(&full);
    b.len() < c.len()
}

/// The directory of the file `p`, relative to the directory `pwd` that the
/// site is built in: `/site/posts/first.md` seen from `/site` lies in `posts`.
pub fn strip_pwd(pwd: &str, p: &str) -> (r: String)
    requires
        is_below(pwd@, p@),
    ensures
        r@ == dir_below(pwd@, p@),
{
    let base = chars_of(pwd);
    let full = chars_of(p);
    let b = path_components(&base);
    let c = path_components(&full);
    let inner = parts_between(&c, b.len(), c.len() - 1);
    let joined = path_of(&inner);
    string_of(&joined)
}

} // verus!
