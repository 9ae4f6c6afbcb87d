//! Releases: feed items whose titles have been read as versions, and the
//! choice of the latest among them.

use crate::feed::{FeedItem, FeedItemView};
use crate::parse::{parse, parse_version, ParseError};
use crate::precedence::{
    lemma_build_metadata_ignored, lemma_precedes_irreflexive, lemma_precedes_total,
    lemma_precedes_transitive,
};
use crate::version::{Version, VersionView};
use vstd::prelude::*;

verus! {

/// A version of the package and the page where it is published.
#[derive(Clone, Debug)]
pub struct Release {
    pub version: Version,
    pub link: String,
}

/// What a `Release` stands for.
pub struct ReleaseView {
    pub version: VersionView,
    pub link: Seq<char>,
}

impl View for Release {
    type V = ReleaseView;

    open spec fn view(&self) -> ReleaseView {
        ReleaseView { version: self.version@, link: self.link@ }
    }
}

/// The views of `releases`, in order.
pub open spec fn releases_view(releases: Seq<Release>) -> Seq<ReleaseView> {
    Seq::new(releases.len(), |i: int| releases[i]@)
}

/// The releases of `items`, one for each item and in the same order, or the
/// first title that is not a version.
pub open spec fn converted(items: Seq<FeedItemView>) -> Result<Seq<ReleaseView>, Seq<char>>
    decreases items.len(),
{
    if items.len() == 0 {
        Ok(Seq::empty())
    } else {
        let last = items.last();
        match converted(items.drop_last()) {
            Err(title) => Err(title),
            Ok(releases) => match parse_version(last.title) {
                None => Err(last.title),
                Some(version) => Ok(releases.push(ReleaseView { version, link: last.link })),
            },
        }
    }
}

/// The view of a result of converting.
pub open spec fn conversion_view(r: Result<Vec<Release>, ParseError>) -> Result<
    Seq<ReleaseView>,
    Seq<char>,
> {
    match r {
        Ok(releases) => Ok(releases_view(releases@)),
        Err(e) => Err(e.input@),
    }
}

/// `k` is the place of the latest release: no release has higher precedence,
/// and of those with the same precedence it is the last.
pub open spec fn is_latest(releases: Seq<ReleaseView>, k: int) -> bool {
    &&& 0 <= k < releases.len()
    &&& forall|j: int|
        0 <= j < releases.len() ==> !releases[k].version.precedes(#[trigger] releases[j].version)
    &&& forall|j: int|
        k < j < releases.len() ==> (#[trigger] releases[j]).version.precedes(releases[k].version)
}

/// Converting succeeds exactly when every title is a version, and then pairs
/// each version with the link of its item, in order; otherwise it gives the
/// first title that is not a version.
pub proof fn lemma_converted(items: Seq<FeedItemView>)
    ensures
        match converted(items) {
            Ok(releases) => {
                &&& releases.len() == items.len()
                &&& forall|i: int|
                    0 <= i < items.len() ==> parse_version((#[trigger] items[i]).title) == Some(
                        releases[i].version,
                    ) && releases[i].link == items[i].link
            },
            Err(title) => exists|k: int|
                {
                    &&& 0 <= k < items.len()
                    &&& #[trigger] items[k].title == title
                    &&& parse_version(title) is None
                    &&& forall|i: int|
                        0 <= i < k ==> parse_version((#[trigger] items[i]).title) is Some
                },
        },
    decreases items.len(),
{
    if items.len() > 0 {
        let front = items.drop_last();
        lemma_converted(front);
        assert forall|i: int| 0 <= i < front.len() implies front[i] == items[i] by {}
    }
}

/// A failure in a prefix of the items is the failure of the whole.
proof fn lemma_converted_prefix(items: Seq<FeedItemView>, k: int)
    requires
        0 <= k <= items.len(),
        converted(items.take(k)) is Err,
    ensures
        converted(items) == converted(items.take(k)),
    decreases items.len(),
{
    if k < items.len() {
        assert(items.drop_last().take(k) =~= items.take(k));
        lemma_converted_prefix(items.drop_last(), k);
    } else {
        assert(items.take(k) =~= items);
    }
}

/// There is at most one latest release.
pub proof fn lemma_latest_unique(releases: Seq<ReleaseView>, k: int, l: int)
    requires
        is_latest(releases, k),
        is_latest(releases, l),
    ensures
        k == l,
{
    if k < l {
        assert(releases[l].version.precedes(releases[k].version));
    } else if l < k {
        assert(releases[k].version.precedes(releases[l].version));
    }
}

/// The precedence of the latest release does not depend on the order in
/// which the releases stand.
pub proof fn lemma_latest_order_independent(
    first: Seq<ReleaseView>,
    second: Seq<ReleaseView>,
    k: int,
    l: int,
)
    requires
        first.to_multiset() == second.to_multiset(),
        is_latest(first, k),
        is_latest(second, l),
    ensures
        first[k].version.same_precedence(second[l].version),
{
    let top = first[k];
    let other = second[l];
    vstd::seq_lib::to_multiset_contains(first, top);
    vstd::seq_lib::to_multiset_contains(second, top);
    vstd::seq_lib::to_multiset_contains(first, other);
    vstd::seq_lib::to_multiset_contains(second, other);
    lemma_precedes_total(top.version, other.version);
}

/// Reads the title of every feed item as a version and pairs it with the
/// item's link, keeping the order. The first title that is not a version
/// ends the conversion and comes back in the error.
pub fn convert_to_release(feed_items: Vec<FeedItem>) -> (r: Result<Vec<Release>, ParseError>)
    ensures
        conversion_view(r) == converted(crate::feed::items_view(feed_items@)),
{
    let ghost all = crate::feed::items_view(feed_items@);
    let mut releases: Vec<Release> = Vec::new();
    let mut i: usize = 0;
    proof {
        assert(releases_view(releases@) =~= Seq::<ReleaseView>::empty());
    }
    while i < feed_items.len()
        invariant
            i <= feed_items@.len(),
            all == crate::feed::items_view(feed_items@),
            converted(all.take(i as int)) == Ok::<Seq<ReleaseView>, Seq<char>>(
                releases_view(releases@),
            ),
        decreases feed_items@.len() - i,
    {
        let ghost before = releases_view(releases@);
        proof {
            assert(all.take(i + 1).drop_last() =~= all.take(i as int));
        }
        let item = &feed_items[i];
        match parse(item.title.as_str()) {
            Err(error) => {
                proof {
                    lemma_converted_prefix(all, i + 1);
                }
                return Err(error);
            },
            Ok(version) => {
                releases.push(Release { version, link: item.link.clone() });
                proof {
                    assert(releases_view(releases@) =~= before.push(
                        ReleaseView { version: version@, link: item.link@ },
                    ));
                }
            },
        }
        i += 1;
    }
    proof {
        assert(all.take(i as int) =~= all);
    }
    Ok(releases)
}

/// Picks the release with the highest precedence; of several with the same
/// precedence, the last. `None` when there is no release.
pub fn find_latest_release(releases: Vec<Release>) -> (r: Option<Release>)
    ensures
        r is None <==> releases@.len() == 0,
        r is Some ==> exists|k: int|
            is_latest(releases_view(releases@), k) && r.unwrap() == #[trigger] releases@[k],
{
    let ghost all = releases@;
    let ghost views = releases_view(all);
    let mut rest = releases;
    let mut best = match rest.pop() {
        None => {
            return None;
        },
        Some(last) => last,
    };
    let ghost mut k: int = all.len() - 1;
    proof {
        lemma_precedes_irreflexive(views[k].version);
    }
    while rest.len() > 0
        invariant
            views == releases_view(all),
            rest@ == all.take(rest@.len() as int),
            rest@.len() <= k < all.len(),
            best == all[k],
            forall|j: int|
                rest@.len() <= j < all.len() ==> !views[k].version.precedes(
                    #[trigger] views[j].version,
                ),
            forall|j: int|
                k < j < all.len() ==> (#[trigger] views[j]).version.precedes(views[k].version),
        decreases rest@.len(),
    {
        let ghost i: int = rest@.len() - 1;
        let candidate = rest.pop().unwrap();
        if best.version.precedes(&candidate.version) {
            proof {
                let top = views[i].version;
                let old_top = views[k].version;
                lemma_precedes_irreflexive(top);
                assert forall|j: int| i <= j < all.len() implies !top.precedes(
                    #[trigger] views[j].version,
                ) by {
                    if j > i && top.precedes(views[j].version) {
                        lemma_precedes_transitive(old_top, top, views[j].version);
                    }
                }
                let n = all.len();
                assert forall|j: int| i < j < n implies (#[trigger] views[j]).version.precedes(top) by {
                    let other = views[j].version;
                    lemma_precedes_total(other, old_top);
                    if other.precedes(old_top) {
                        lemma_precedes_transitive(other, old_top, top);
                    } else {
                        lemma_build_metadata_ignored(other, old_top, top);
                    }
                }
                k = i;
            }
            best = candidate;
        }
    }
    Some(best)
}

} // verus!
