//! What to do when a file of the site changes.
//!
//! Each change asks for one thing at most: a changed template or changed
//! settings for a build from nothing, a changed document for every document
//! to be read again, a changed public file or attachment for a copy. One
//! build runs at a time; what is asked for meanwhile waits, and requests
//! that ask for the same are one request.

use vstd::prelude::*;
use crate::orchestrator::{full_rebuild, markdown_rebuild, BuildStep};
use crate::path::{
    chars_eq, extension, file_name, leads_to, path_extension, path_file_name, path_leads_to,
};
use crate::site::{BuildState, Rebuild, Site};
use crate::text::chars_of;
use crate::util::{dir_below, is_below, strip_pwd, under_pwd};

verus! {

/// What happened to a file.
#[derive(Debug, Clone, Copy, PartialEq, Eq, Structural)]
pub enum ChangeKind {
    Write,
    Create,
    Remove,
    /// Anything else, which is of no concern.
    Other,
}

/// A change to a file, as the watcher tells it.
#[derive(Debug)]
pub struct WatchEvent {
    pub kind: ChangeKind,
    pub path: String,
}

/// Whether a path names a template or the settings.
pub open spec fn template_or_config(site: Site, path: Seq<char>) -> bool {
    leads_to(site.dir_esker_templates@, path) || file_name(path) == Some("config.yaml"@)
}

/// Whether a path names a document.
pub open spec fn markdown(path: Seq<char>) -> bool {
    extension(path) == Some("md"@)
}

/// Whether a path names one of the public files.
pub open spec fn public_file(site: Site, path: Seq<char>) -> bool {
    leads_to(site.dir_esker_public@, path)
}

/// Whether a path names an attachment: a file of the site below the
/// directory with the name of the attachments' directory.
pub open spec fn attachment(site: Site, path: Seq<char>) -> bool {
    match site.dir_attachments {
        Some(dir) => match file_name(dir@) {
            Some(name) => is_below(site.dir@, path) && leads_to(name, dir_below(site.dir@, path)),
            None => false,
        },
        None => false,
    }
}

/// What a change asks for. A template or the settings come before a
/// document, a document before a public file, a public file before an
/// attachment; a path that is none of them asks for nothing.
pub open spec fn wanted(site: Site, kind: ChangeKind, path: Seq<char>) -> Option<Rebuild> {
    if kind == ChangeKind::Other {
        None
    } else if template_or_config(site, path) {
        Some(Rebuild::Full)
    } else if markdown(path) {
        Some(Rebuild::Markdown)
    } else if public_file(site, path) {
        Some(Rebuild::CopyPublic)
    } else if attachment(site, path) {
        Some(Rebuild::CopyData)
    } else {
        None
    }
}

/// Whether a request starts a build.
pub open spec fn is_build(r: Rebuild) -> bool {
    r == Rebuild::Full || r == Rebuild::Markdown
}

/// Whether a build is running.
pub open spec fn busy(state: BuildState) -> bool {
    state == BuildState::Scanning || state == BuildState::Rendering
}

/// The waiting requests with one more. A build from nothing does all that
/// any request asks for: behind it nothing waits, and it takes the place of
/// all that waits. A request that waits already does not wait twice.
pub open spec fn coalesced(pending: Seq<Rebuild>, r: Rebuild) -> Seq<Rebuild> {
    if pending.contains(Rebuild::Full) {
        pending
    } else if r == Rebuild::Full {
        seq![Rebuild::Full]
    } else if pending.contains(r) {
        pending
    } else {
        pending.push(r)
    }
}

/// The steps that a request stands for.
pub open spec fn steps_of(r: Rebuild) -> Seq<BuildStep> {
    match r {
        Rebuild::Full => full_rebuild(),
        Rebuild::Markdown => markdown_rebuild(),
        Rebuild::CopyPublic => seq![BuildStep::CopyPublic],
        Rebuild::CopyData => seq![BuildStep::CopyData],
    }
}

/// Of the waiting requests none waits twice.
pub open spec fn waiting(pending: Seq<Rebuild>) -> bool {
    forall|i: int, j: int| 0 <= i < j < pending.len() ==> pending[i] != pending[j]
}

/// Whether `r` is among the requests.
fn is_waiting(pending: &Vec<Rebuild>, r: Rebuild) -> (b: bool)
    ensures
        b == pending@.contains(r),
{
    let mut i: usize = 0;
    while i < pending.len()
        invariant
            i <= pending.len(),
            forall|j: int| 0 <= j < i ==> pending@[j] != r,
        decreases pending.len() - i,
    {
        if pending[i] == r {
            return true;
        }
        i += 1;
    }
    false
}

impl Rebuild {
    /// The steps that the request stands for, for the caller to carry out.
    pub fn steps(&self, site: &Site) -> (r: Vec<BuildStep>)
        ensures
            r@ == steps_of(*self),
    {
        match self {
            Rebuild::Full => site.rebuild(),
            Rebuild::Markdown => site.rebuild_markdown(),
            Rebuild::CopyPublic => {
                let mut steps: Vec<BuildStep> = Vec::new();
                steps.push(BuildStep::CopyPublic);
                assert(steps@ =~= steps_of(*self));
                steps
            },
            Rebuild::CopyData => {
                let mut steps: Vec<BuildStep> = Vec::new();
                steps.push(BuildStep::CopyData);
                assert(steps@ =~= steps_of(*self));
                steps
            },
        }
    }
}

/// What a run of changes asks for, taken together: what each of them asks
/// for, in their order, requests for the same counted once.
pub open spec fn collapsed(site: Site, events: Seq<WatchEvent>) -> Seq<Rebuild>
    decreases events.len(),
{
    if events.len() == 0 {
        Seq::empty()
    } else {
        let before = collapsed(site, events.drop_last());
        match wanted(site, events.last().kind, events.last().path@) {
            Some(w) => coalesced(before, w),
            None => before,
        }
    }
}

/// Taking one more request in keeps the requests apart: none waits twice,
/// and a build from nothing waits alone.
pub proof fn lemma_coalesced_waiting(pending: Seq<Rebuild>, r: Rebuild)
    requires
        waiting(pending),
        pending.contains(Rebuild::Full) ==> pending.len() == 1,
    ensures
        waiting(coalesced(pending, r)),
        coalesced(pending, r).contains(Rebuild::Full) ==> coalesced(pending, r).len() == 1,
{
    let after = coalesced(pending, r);
    if !pending.contains(Rebuild::Full) && r != Rebuild::Full && !pending.contains(r) {
        assert forall|i: int, j: int| 0 <= i < j < after.len() implies after[i] != after[j] by {
            if j == pending.len() {
                assert(pending[i] == after[i]);
                assert(pending.contains(pending[i]));
            } else {
                assert(pending[i] == after[i]);
                assert(pending[j] == after[j]);
            }
        }
        if after.contains(Rebuild::Full) {
            let k = choose|k: int| 0 <= k < after.len() && after[k] == Rebuild::Full;
            assert(pending[k] == Rebuild::Full);
            assert(pending.contains(Rebuild::Full));
        }
    }
}

/// The requests of a run of changes are apart from each other: whatever the
/// changes, none of what they ask for is asked for twice, and a build from
/// nothing is asked for alone.
pub proof fn law_changes_collapse(site: Site, events: Seq<WatchEvent>)
    ensures
        waiting(collapsed(site, events)),
        collapsed(site, events).contains(Rebuild::Full) ==> collapsed(site, events).len() == 1,
    decreases events.len(),
{
    if events.len() > 0 {
        law_changes_collapse(site, events.drop_last());
        match wanted(site, events.last().kind, events.last().path@) {
            Some(w) => {
                lemma_coalesced_waiting(collapsed(site, events.drop_last()), w);
            },
            None => {},
        }
    } else {
        assert(!collapsed(site, events).contains(Rebuild::Full));
    }
}

/// The waiting requests with all of `more`, one after the other.
pub open spec fn coalesced_all(pending: Seq<Rebuild>, more: Seq<Rebuild>) -> Seq<Rebuild>
    decreases more.len(),
{
    if more.len() == 0 {
        pending
    } else {
        coalesced(coalesced_all(pending, more.drop_last()), more.last())
    }
}

/// Taking one more request in lets none wait twice.
pub proof fn lemma_coalesced_apart(pending: Seq<Rebuild>, r: Rebuild)
    requires
        waiting(pending),
    ensures
        waiting(coalesced(pending, r)),
{
    let after = coalesced(pending, r);
    if !pending.contains(Rebuild::Full) && r != Rebuild::Full && !pending.contains(r) {
        assert forall|i: int, j: int| 0 <= i < j < after.len() implies after[i] != after[j] by {
            assert(pending[i] == after[i]);
            assert(pending.contains(pending[i]));
            if j < pending.len() {
                assert(pending[j] == after[j]);
            }
        }
    }
}

/// The waiting requests with one more.
fn coalesce(pending: &mut Vec<Rebuild>, w: Rebuild)
    ensures
        final(pending)@ == coalesced(old(pending)@, w),
{
    if is_waiting(pending, Rebuild::Full) {
    } else if w == Rebuild::Full {
        pending.clear();
        pending.push(Rebuild::Full);
        assert(pending@ =~= seq![Rebuild::Full]);
    } else if !is_waiting(pending, w) {
        pending.push(w);
    }
}

impl Site {
    /// What the changes of one short while ask for, taken together.
    pub fn collapse(&self, events: &Vec<WatchEvent>) -> (r: Vec<Rebuild>)
        ensures
            r@ == collapsed(*self, events@),
    {
        let mut requests: Vec<Rebuild> = Vec::new();
        let mut i: usize = 0;
        assert(events@.take(0) =~= Seq::<WatchEvent>::empty());
        while i < events.len()
            invariant
                i <= events.len(),
                requests@ == collapsed(*self, events@.take(i as int)),
            decreases events.len() - i,
        {
            proof {
                assert(events@.take(i + 1).drop_last() == events@.take(i as int));
                assert(events@.take(i + 1).last() == events@[i as int]);
            }
            match self.classify(events[i].kind, events[i].path.as_str()) {
                Some(w) => {
                    coalesce(&mut requests, w);
                },
                None => {},
            }
            i += 1;
        }
        assert(events@.take(events@.len() as int) == events@);
        requests
    }

    /// What the change of `path` asks for.
    pub fn classify(&self, kind: ChangeKind, path: &str) -> (r: Option<Rebuild>)
        ensures
            r == wanted(*self, kind, path@),
    {
        if kind == ChangeKind::Other {
            return None;
        }
        let p = chars_of(path);
        let is_config = match path_file_name(&p) {
            Some(name) => chars_eq(&name, &chars_of("config.yaml")),
            None => false,
        };
        if path_leads_to(&chars_of(self.dir_esker_templates.as_str()), &p) || is_config {
            return Some(Rebuild::Full);
        }
        let is_markdown = match path_extension(&p) {
            Some(ext) => chars_eq(&ext, &chars_of("md")),
            None => false,
        };
        if is_markdown {
            return Some(Rebuild::Markdown);
        }
        if path_leads_to(&chars_of(self.dir_esker_public.as_str()), &p) {
            return Some(Rebuild::CopyPublic);
        }
        let is_attachment = match &self.dir_attachments {
            Some(dir_attachments) => match path_file_name(&chars_of(dir_attachments.as_str())) {
                Some(dir_attachments_name) => {
                    if under_pwd(self.dir.as_str(), path) {
                        let stripped_path = strip_pwd(self.dir.as_str(), path);
                        path_leads_to(&dir_attachments_name, &chars_of(stripped_path.as_str()))
                    } else {
                        false
                    }
                },
                None => false,
            },
            None => false,
        };
        if is_attachment {
            Some(Rebuild::CopyData)
        } else {
            None
        }
    }

    /// Takes note of a change and says what is to be done now, if anything.
    ///
    /// While a build runs, what the change asks for waits. Otherwise it is to
    /// be done now, and where it is a build, the build is scanning from now
    /// on.
    pub fn handle_watch_event(&mut self, event: &WatchEvent) -> (r: Option<Rebuild>)
        requires
            waiting(old(self).pending@),
        ensures
            waiting(final(self).pending@),
            final(self).same_but_progress(*old(self)),
            match wanted(*old(self), event.kind, event.path@) {
                None => r is None && final(self).state == old(self).state && final(self).pending@
                    == old(self).pending@,
                Some(w) => if busy(old(self).state) {
                    &&& r is None
                    &&& final(self).state == old(self).state
                    &&& final(self).pending@ == coalesced(old(self).pending@, w)
                } else {
                    &&& r == Some(w)
                    &&& final(self).pending@ == old(self).pending@
                    &&& final(self).state == (if is_build(w) {
                        BuildState::Scanning
                    } else {
                        old(self).state
                    })
                },
            },
    {
        let w = match self.classify(event.kind, event.path.as_str()) {
            Some(w) => w,
            None => {
                return None;
            },
        };
        if self.state == BuildState::Scanning || self.state == BuildState::Rendering {
            coalesce(&mut self.pending, w);
            None
        } else {
            if w == Rebuild::Full || w == Rebuild::Markdown {
                self.state = BuildState::Scanning;
            }
            Some(w)
        }
    }

    /// Takes note of the changes of one short while and says what is to be
    /// done now, if anything.
    ///
    /// The changes are taken together: what they ask for is asked for once.
    /// While a build runs, all of it waits. Otherwise the first request is
    /// to be done now, and where it is a build, the build is scanning from
    /// now on; the other requests wait.
    pub fn handle_watch_events(&mut self, events: &Vec<WatchEvent>) -> (r: Option<Rebuild>)
        requires
            waiting(old(self).pending@),
        ensures
            waiting(final(self).pending@),
            final(self).same_but_progress(*old(self)),
            ({
                let asked = collapsed(*old(self), events@);
                if asked.len() == 0 {
                    &&& r is None
                    &&& final(self).state == old(self).state
                    &&& final(self).pending@ == old(self).pending@
                } else if busy(old(self).state) {
                    &&& r is None
                    &&& final(self).state == old(self).state
                    &&& final(self).pending@ == coalesced_all(old(self).pending@, asked)
                } else {
                    &&& r == Some(asked[0])
                    &&& final(self).pending@ == coalesced_all(old(self).pending@, asked.skip(1))
                    &&& final(self).state == (if is_build(asked[0]) {
                        BuildState::Scanning
                    } else {
                        old(self).state
                    })
                }
            }),
    {
        let asked = self.collapse(events);
        if asked.len() == 0 {
            return None;
        }
        let running = self.state == BuildState::Scanning || self.state == BuildState::Rendering;
        let first: usize = if running {
            0
        } else {
            1
        };
        let ghost later = asked@.skip(first as int);
        let mut i: usize = first;
        assert(later.take(0) =~= Seq::<Rebuild>::empty());
        while i < asked.len()
            invariant
                first <= i <= asked.len(),
                later == asked@.skip(first as int),
                waiting(self.pending@),
                self.pending@ == coalesced_all(old(self).pending@, later.take(i - first)),
                self.state == old(self).state,
                self.same_but_progress(*old(self)),
            decreases asked.len() - i,
        {
            proof {
                assert(later.take(i + 1 - first).drop_last() == later.take(i - first));
                assert(later.take(i + 1 - first).last() == asked@[i as int]);
                lemma_coalesced_apart(self.pending@, asked@[i as int]);
            }
            coalesce(&mut self.pending, asked[i]);
            i += 1;
        }
        assert(later.take(later.len() as int) == later);
        if running {
            assert(asked@.skip(0) == asked@);
            None
        } else {
            let now = asked[0];
            if now == Rebuild::Full || now == Rebuild::Markdown {
                self.state = BuildState::Scanning;
            }
            Some(now)
        }
    }

    /// Takes note that the build has ended, well or not, and says what is to
    /// be done next: the request that has waited longest, if one waits.
    pub fn finish_build(&mut self, ok: bool) -> (r: Option<Rebuild>)
        requires
            waiting(old(self).pending@),
        ensures
            waiting(final(self).pending@),
            final(self).same_but_progress(*old(self)),
            old(self).pending@.len() == 0 ==> r is None && final(self).pending@.len() == 0
                && final(self).state == (if ok {
                BuildState::Idle
            } else {
                BuildState::Failed
            }),
            old(self).pending@.len() > 0 ==> {
                &&& r == Some(old(self).pending@[0])
                &&& final(self).pending@ == old(self).pending@.skip(1)
                &&& final(self).state == (if is_build(old(self).pending@[0]) {
                    BuildState::Scanning
                } else if ok {
                    BuildState::Idle
                } else {
                    BuildState::Failed
                })
            },
    {
        self.state = if ok {
            BuildState::Idle
        } else {
            BuildState::Failed
        };
        if self.pending.len() == 0 {
            return None;
        }
        let next = self.pending.remove(0);
        assert(self.pending@ =~= old(self).pending@.skip(1));
        if next == Rebuild::Full || next == Rebuild::Markdown {
            self.state = BuildState::Scanning;
        }
        Some(next)
    }

    /// Starts a build unless one is running: the build is scanning from now
    /// on. Says whether it did.
    pub fn start_build(&mut self) -> (r: bool)
        ensures
            r == !busy(old(self).state),
            r ==> final(self).state == BuildState::Scanning,
            !r ==> final(self).state == old(self).state,
            final(self).pending == old(self).pending,
            final(self).same_but_progress(*old(self)),
    {
        if self.state == BuildState::Scanning || self.state == BuildState::Rendering {
            false
        } else {
            self.state = BuildState::Scanning;
            true
        }
    }
}

} // verus!
