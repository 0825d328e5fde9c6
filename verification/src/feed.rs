//! The feed of the site: every document, the newest first.

use vstd::prelude::*;
use crate::md_file::MdFile;
use crate::site::Site;
use crate::templates::{shows, Page};

verus! {

/// Where a document with the date `stamp` goes in a feed: behind every
/// document that is as new or newer. `feed` holds the places of documents in
/// `stamps`.
pub open spec fn feed_place(feed: Seq<usize>, stamps: Seq<i64>, stamp: i64) -> int
    decreases feed.len(),
{
    if feed.len() > 0 && stamps[feed[0] as int] >= stamp {
        1 + feed_place(feed.skip(1), stamps, stamp)
    } else {
        0
    }
}

/// The order of a feed: the places of the documents with the dates `stamps`,
/// the newest first, and of two that are equally new the one that came
/// first first.
pub open spec fn feed_order(stamps: Seq<i64>) -> Seq<usize>
    decreases stamps.len(),
{
    if stamps.len() == 0 {
        Seq::empty()
    } else {
        let before = feed_order(stamps.drop_last());
        before.insert(feed_place(before, stamps, stamps.last()), (stamps.len() - 1) as usize)
    }
}

/// The documents of all directories, directory by directory.
pub open spec fn flattened(groups: Seq<Vec<MdFile>>) -> Seq<MdFile>
    decreases groups.len(),
{
    if groups.len() == 0 {
        Seq::empty()
    } else {
        flattened(groups.drop_last()) + groups.last()@
    }
}

/// The dates of creation of the documents.
pub open spec fn stamps_of(docs: Seq<MdFile>) -> Seq<i64> {
    docs.map_values(|d: MdFile| d.frontmatter.date_created.timestamp)
}

/// What `feed_place` finds: everything before the place is as new or newer,
/// and what stands at the place is older.
pub proof fn lemma_feed_place(feed: Seq<usize>, stamps: Seq<i64>, stamp: i64)
    ensures
        0 <= feed_place(feed, stamps, stamp) <= feed.len(),
        forall|k: int|
            0 <= k < feed_place(feed, stamps, stamp) ==> stamps[(#[trigger] feed[k]) as int]
                >= stamp,
        feed_place(feed, stamps, stamp) < feed.len() ==> stamps[feed[feed_place(
            feed,
            stamps,
            stamp,
        )] as int] < stamp,
    decreases feed.len(),
{
    if feed.len() > 0 && stamps[feed[0] as int] >= stamp {
        let tail = feed.skip(1);
        lemma_feed_place(tail, stamps, stamp);
        let p = feed_place(feed, stamps, stamp);
        assert forall|k: int| 0 <= k < p implies stamps[(#[trigger] feed[k]) as int] >= stamp by {
            if k > 0 {
                assert(tail[k - 1] == feed[k]);
            }
        }
        if p < feed.len() {
            assert(tail[p - 1] == feed[p]);
        }
    }
}

/// The place depends on the dates of the documents in the feed only.
pub proof fn lemma_feed_place_same(feed: Seq<usize>, a: Seq<i64>, b: Seq<i64>, stamp: i64)
    requires
        forall|k: int| 0 <= k < feed.len() ==> a[(#[trigger] feed[k]) as int] == b[feed[k] as int],
    ensures
        feed_place(feed, a, stamp) == feed_place(feed, b, stamp),
    decreases feed.len(),
{
    if feed.len() > 0 {
        assert(a[feed[0] as int] == b[feed[0] as int]);
        let tail = feed.skip(1);
        assert forall|k: int| 0 <= k < tail.len() implies a[(#[trigger] tail[k]) as int] == b[tail[k] as int] by {
            assert(tail[k] == feed[k + 1]);
        }
        lemma_feed_place_same(tail, a, b, stamp);
    }
}

/// The feed holds every document once, and no document stands before a
/// newer one.
pub proof fn law_feed_is_sorted(stamps: Seq<i64>)
    requires
        stamps.len() <= usize::MAX,
    ensures
        feed_order(stamps).len() == stamps.len(),
        forall|k: int|
            0 <= k < feed_order(stamps).len() ==> (#[trigger] feed_order(stamps)[k])
                < stamps.len(),
        forall|a: int, b: int|
            0 <= a < b < feed_order(stamps).len() ==> stamps[(#[trigger] feed_order(
                stamps,
            )[a]) as int] >= stamps[(#[trigger] feed_order(stamps)[b]) as int],
        forall|i: usize| i < stamps.len() ==> #[trigger] feed_order(stamps).contains(i),
    decreases stamps.len(),
{
    if stamps.len() > 0 {
        let shorter = stamps.drop_last();
        law_feed_is_sorted(shorter);
        let before = feed_order(shorter);
        let stamp = stamps.last();
        let p = feed_place(before, stamps, stamp);
        let last = (stamps.len() - 1) as usize;
        let after = feed_order(stamps);
        lemma_feed_place(before, stamps, stamp);
        assert(after == before.insert(p, last));
        assert forall|k: int| 0 <= k < after.len() implies (#[trigger] after[k]) < stamps.len() by {
            if k < p {
                assert(after[k] == before[k]);
            } else if k > p {
                assert(after[k] == before[k - 1]);
            }
        }
        assert forall|a: int, b: int| 0 <= a < b < after.len() implies stamps[(
        #[trigger] after[a]) as int] >= stamps[(#[trigger] after[b]) as int] by {
            let at = |k: int| -> int { if k < p { k } else { k - 1 } };
            if a != p && b != p {
                assert(after[a] == before[at(a)]);
                assert(after[b] == before[at(b)]);
                assert(shorter[before[at(a)] as int] == stamps[before[at(a)] as int]);
                assert(shorter[before[at(b)] as int] == stamps[before[at(b)] as int]);
            } else if a == p {
                assert(after[b] == before[b - 1]);
                assert(shorter[before[b - 1] as int] == stamps[before[b - 1] as int]);
                assert(shorter[before[p] as int] == stamps[before[p] as int]);
                if b - 1 > p {
                    assert(shorter[before[p] as int] >= shorter[before[b - 1] as int]);
                }
            } else {
                assert(after[a] == before[a]);
            }
        }
        assert forall|i: usize| i < stamps.len() implies #[trigger] after.contains(i) by {
            if i == last {
                assert(after[p] == i);
            } else {
                assert(before.contains(i));
                let k = choose|k: int| 0 <= k < before.len() && before[k] == i;
                if k < p {
                    assert(after[k] == i);
                } else {
                    assert(after[k + 1] == i);
                }
            }
        }
    }
}

/// The order of a feed of documents with the given dates.
pub fn order_newest_first(stamps: &Vec<i64>) -> (r: Vec<usize>)
    ensures
        r@ == feed_order(stamps@),
{
    let mut order: Vec<usize> = Vec::new();
    let mut i: usize = 0;
    assert(stamps@.take(0) =~= Seq::<i64>::empty());
    while i < stamps.len()
        invariant
            i <= stamps.len(),
            order@ == feed_order(stamps@.take(i as int)),
            order@.len() == i,
            forall|k: int| 0 <= k < order@.len() ==> (#[trigger] order@[k]) < i,
        decreases stamps.len() - i,
    {
        let ghost now = stamps@.take(i + 1);
        let stamp = stamps[i];
        let mut p: usize = 0;
        proof {
            assert(order@.skip(0) == order@);
        }
        while p < order.len() && stamps[order[p]] >= stamp
            invariant
                p <= order.len(),
                now == stamps@.take(i + 1),
                i < stamps.len(),
                stamp == stamps@[i as int],
                forall|k: int| 0 <= k < order@.len() ==> (#[trigger] order@[k]) < i,
                feed_place(order@, now, stamp) == p + feed_place(order@.skip(p as int), now, stamp),
            decreases order.len() - p,
        {
            proof {
                let tail = order@.skip(p as int);
                assert(tail[0] == order@[p as int]);
                assert(now[order@[p as int] as int] == stamps@[order@[p as int] as int]);
                assert(tail.skip(1) == order@.skip(p + 1));
            }
            p += 1;
        }
        proof {
            let tail = order@.skip(p as int);
            if p < order.len() {
                assert(tail[0] == order@[p as int]);
                assert(now[order@[p as int] as int] == stamps@[order@[p as int] as int]);
            }
            assert(feed_place(order@, now, stamp) == p);
            assert(now.drop_last() == stamps@.take(i as int));
            assert(now.last() == stamp);
        }
        order.insert(p, i);
        proof {
            assert forall|k: int| 0 <= k < order@.len() implies (#[trigger] order@[k]) < i + 1 by {
                let old_order = feed_order(stamps@.take(i as int));
                if k < p {
                    assert(order@[k] == old_order[k]);
                } else if k > p {
                    assert(order@[k] == old_order[k - 1]);
                }
            }
        }
        i += 1;
    }
    assert(stamps@.take(stamps@.len() as int) == stamps@);
    order
}

impl Site {
    /// The pages of the feed: every document of the site, the newest first.
    pub fn build_syndication_pages(&self) -> (r: Vec<Page<'_>>)
        ensures
            r@.len() == flattened(self.markdown_files.values@).len(),
            forall|k: int|
                0 <= k < r@.len() ==> {
                    let docs = flattened(self.markdown_files.values@);
                    let at = feed_order(stamps_of(docs))[k] as int;
                    &&& 0 <= at < docs.len()
                    &&& shows(#[trigger] r@[k], docs[at])
                },
    {
        let mut all: Vec<&MdFile> = Vec::new();
        let mut stamps: Vec<i64> = Vec::new();
        let groups = &self.markdown_files.values;
        let mut g: usize = 0;
        assert(groups@.take(0) =~= Seq::<Vec<MdFile>>::empty());
        while g < groups.len()
            invariant
                g <= groups.len(),
                all@.len() == flattened(groups@.take(g as int)).len(),
                forall|k: int| 0 <= k < all@.len() ==> *(#[trigger] all@[k]) == flattened(
                    groups@.take(g as int),
                )[k],
                stamps@ == stamps_of(flattened(groups@.take(g as int))),
            decreases groups.len() - g,
        {
            let docs = &groups[g];
            let ghost before = flattened(groups@.take(g as int));
            proof {
                assert(groups@.take(g + 1).drop_last() == groups@.take(g as int));
                assert(groups@.take(g + 1).last() == groups@[g as int]);
            }
            let mut d: usize = 0;
            assert(docs@.take(0) =~= Seq::<MdFile>::empty());
            assert(before + docs@.take(0) == before);
            while d < docs.len()
                invariant
                    d <= docs.len(),
                    all@.len() == (before + docs@.take(d as int)).len(),
                    forall|k: int| 0 <= k < all@.len() ==> *(#[trigger] all@[k]) == (before
                        + docs@.take(d as int))[k],
                    stamps@ == stamps_of(before + docs@.take(d as int)),
                decreases docs.len() - d,
            {
                proof {
                    assert(before + docs@.take(d + 1) == (before + docs@.take(d as int)).push(
                        docs@[d as int],
                    ));
                }
                all.push(&docs[d]);
                stamps.push(docs[d].frontmatter.date_created.timestamp);
                d += 1;
            }
            assert(docs@.take(docs@.len() as int) == docs@);
            g += 1;
        }
        assert(groups@.take(groups@.len() as int) == groups@);
        let ghost docs = flattened(groups@);
        let order = order_newest_first(&stamps);
        let count = stamps.len();
        proof {
            assert(stamps@.len() == count);
            law_feed_is_sorted(stamps@);
        }
        let mut pages: Vec<Page<'_>> = Vec::new();
        let mut k: usize = 0;
        while k < order.len()
            invariant
                k <= order.len(),
                order@ == feed_order(stamps_of(docs)),
                order@.len() == docs.len(),
                all@.len() == docs.len(),
                forall|j: int| 0 <= j < all@.len() ==> *(#[trigger] all@[j]) == docs[j],
                forall|j: int| 0 <= j < order@.len() ==> (#[trigger] order@[j]) < docs.len(),
                pages@.len() == k,
                forall|j: int|
                    0 <= j < k ==> shows(#[trigger] pages@[j], docs[order@[j] as int]),
            decreases order.len() - k,
        {
            let at = order[k];
            let page = Page::new(all[at]);
            pages.push(page);
            k += 1;
        }
        pages
    }
}

} // verus!
