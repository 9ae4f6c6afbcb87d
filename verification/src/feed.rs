//! Items of a release feed.
//!
//! A feed document gives each of its items an optional title and an optional
//! link. A feed item, as the rest of the library takes it, has both.

use vstd::prelude::*;

verus! {

/// An item as the feed document gives it: the title and the link may be absent.
#[derive(Clone, Debug, PartialEq, Eq)]
pub struct FeedEntry {
    pub title: Option<String>,
    pub link: Option<String>,
}

/// What a `FeedEntry` stands for.
pub struct FeedEntryView {
    pub title: Option<Seq<char>>,
    pub link: Option<Seq<char>>,
}

impl View for FeedEntry {
    type V = FeedEntryView;

    open spec fn view(&self) -> FeedEntryView {
        FeedEntryView {
            title: match self.title {
                Some(title) => Some(title@),
                None => None,
            },
            link: match self.link {
                Some(link) => Some(link@),
                None => None,
            },
        }
    }
}

/// One item of the feed: the title names a version, the link is where the release lives.
#[derive(Clone, Debug, PartialEq, Eq)]
pub struct FeedItem {
    pub title: String,
    pub link: String,
}

/// What a `FeedItem` stands for.
pub struct FeedItemView {
    pub title: Seq<char>,
    pub link: Seq<char>,
}

impl View for FeedItem {
    type V = FeedItemView;

    open spec fn view(&self) -> FeedItemView {
        FeedItemView { title: self.title@, link: self.link@ }
    }
}

/// Why the entries of a document gave no feed items.
#[derive(Clone, Debug, PartialEq, Eq)]
pub enum FeedError {
    /// The entry at `index` has no title.
    MissingTitle { index: usize },
    /// The entry at `index` has a title but no link.
    MissingLink { index: usize },
}

/// What a `FeedError` stands for.
pub enum FeedFault {
    MissingTitle(nat),
    MissingLink(nat),
}

impl View for FeedError {
    type V = FeedFault;

    open spec fn view(&self) -> FeedFault {
        match self {
            FeedError::MissingTitle { index } => FeedFault::MissingTitle(*index as nat),
            FeedError::MissingLink { index } => FeedFault::MissingLink(*index as nat),
        }
    }
}

/// The entry has both a title and a link.
pub open spec fn is_complete(entry: FeedEntryView) -> bool {
    entry.title is Some && entry.link is Some
}

/// The feed items of `entries`, or the fault of the first entry that is not
/// complete: its title is looked for before its link.
pub open spec fn collected(entries: Seq<FeedEntryView>) -> Result<Seq<FeedItemView>, FeedFault>
    decreases entries.len(),
{
    if entries.len() == 0 {
        Ok(Seq::empty())
    } else {
        let last = entries.last();
        match collected(entries.drop_last()) {
            Err(fault) => Err(fault),
            Ok(items) => if last.title is None {
                Err(FeedFault::MissingTitle((entries.len() - 1) as nat))
            } else if last.link is None {
                Err(FeedFault::MissingLink((entries.len() - 1) as nat))
            } else {
                Ok(items.push(FeedItemView { title: last.title.unwrap(), link: last.link.unwrap() }))
            },
        }
    }
}

/// The views of `entries`, in order.
pub open spec fn entries_view(entries: Seq<FeedEntry>) -> Seq<FeedEntryView> {
    Seq::new(entries.len(), |i: int| entries[i]@)
}

/// The views of `items`, in order.
pub open spec fn items_view(items: Seq<FeedItem>) -> Seq<FeedItemView> {
    Seq::new(items.len(), |i: int| items[i]@)
}

/// The view of a result of collecting.
pub open spec fn collection_view(r: Result<Vec<FeedItem>, FeedError>) -> Result<
    Seq<FeedItemView>,
    FeedFault,
> {
    match r {
        Ok(items) => Ok(items_view(items@)),
        Err(e) => Err(e@),
    }
}

/// Collecting succeeds exactly when every entry is complete, and then keeps
/// every entry, in order; otherwise the fault names the first entry that is not.
pub proof fn lemma_collected(entries: Seq<FeedEntryView>)
    ensures
        match collected(entries) {
            Ok(items) => {
                &&& items.len() == entries.len()
                &&& forall|i: int|
                    0 <= i < entries.len() ==> is_complete(#[trigger] entries[i]) && items[i]
                        == (FeedItemView {
                        title: entries[i].title.unwrap(),
                        link: entries[i].link.unwrap(),
                    })
            },
            Err(FeedFault::MissingTitle(k)) => {
                &&& k < entries.len()
                &&& entries[k as int].title is None
                &&& forall|i: int| 0 <= i < k ==> is_complete(#[trigger] entries[i])
            },
            Err(FeedFault::MissingLink(k)) => {
                &&& k < entries.len()
                &&& entries[k as int].title is Some
                &&& entries[k as int].link is None
                &&& forall|i: int| 0 <= i < k ==> is_complete(#[trigger] entries[i])
            },
        },
    decreases entries.len(),
{
    if entries.len() > 0 {
        let front = entries.drop_last();
        lemma_collected(front);
        assert forall|i: int| 0 <= i < front.len() implies front[i] == entries[i] by {}
    }
}

/// A fault in a prefix of the entries is the fault of the whole.
proof fn lemma_collected_prefix(entries: Seq<FeedEntryView>, k: int)
    requires
        0 <= k <= entries.len(),
        collected(entries.take(k)) is Err,
    ensures
        collected(entries) == collected(entries.take(k)),
    decreases entries.len(),
{
    if k < entries.len() {
        assert(entries.drop_last().take(k) =~= entries.take(k));
        lemma_collected_prefix(entries.drop_last(), k);
    } else {
        assert(entries.take(k) =~= entries);
    }
}

/// Turns the entries of a feed document into feed items.
///
/// Every entry must have a title and a link; the error names the first entry
/// that lacks one, the title being looked for first.
pub fn get_feed_items(entries: Vec<FeedEntry>) -> (r: Result<Vec<FeedItem>, FeedError>)
    ensures
        collection_view(r) == collected(entries_view(entries@)),
{
    let ghost all = entries_view(entries@);
    let mut items: Vec<FeedItem> = Vec::new();
    let mut i: usize = 0;
    proof {
        assert(items_view(items@) =~= Seq::<FeedItemView>::empty());
    }
    while i < entries.len()
        invariant
            i <= entries@.len(),
            all == entries_view(entries@),
            collected(all.take(i as int)) == Ok::<Seq<FeedItemView>, FeedFault>(items_view(items@)),
        decreases entries@.len() - i,
    {
        let ghost before = items_view(items@);
        proof {
            assert(all.take(i + 1).drop_last() =~= all.take(i as int));
        }
        let entry = &entries[i];
        match (&entry.title, &entry.link) {
            (None, _) => {
                proof {
                    lemma_collected_prefix(all, i + 1);
                }
                return Err(FeedError::MissingTitle { index: i });
            },
            (Some(_), None) => {
                proof {
                    lemma_collected_prefix(all, i + 1);
                }
                return Err(FeedError::MissingLink { index: i });
            },
            (Some(title), Some(link)) => {
                items.push(FeedItem { title: title.clone(), link: link.clone() });
                proof {
                    assert(items_view(items@) =~= before.push(
                        FeedItemView { title: title@, link: link@ },
                    ));
                }
            },
        }
        i += 1;
    }
    proof {
        assert(all.take(i as int) =~= all);
    }
    Ok(items)
}

} // verus!
