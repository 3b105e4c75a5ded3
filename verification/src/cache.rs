//! The cached index and the rule that decides whether it may be used.

use crate::index::IssueIndex;
use crate::index_build::{is_issue_file, is_issue_file_name};
use crate::models::Timestamp;
use crate::order::lemma_ascending_same_members;
use crate::text::same_text;
use crate::text_map::TextMap;
use vstd::prelude::*;

verus! {

/// One directory entry: a file's name and when it was last modified.
#[derive(Debug)]
pub struct FileStamp {
    pub name: String,
    pub modified: Timestamp,
}

/// Mathematical content of [`FileStamp`].
pub struct FileStampView {
    pub name: Seq<char>,
    pub modified: Timestamp,
}

impl View for FileStamp {
    type V = FileStampView;

    open spec fn view(&self) -> FileStampView {
        FileStampView { name: self.name@, modified: self.modified }
    }
}

impl DeepView for FileStamp {
    type V = FileStampView;

    open spec fn deep_view(&self) -> FileStampView {
        self@
    }
}

/// The modification-time manifest of a directory listing: each issue file's
/// name with its modification time.
pub open spec fn manifest_of(listing: Seq<FileStampView>) -> Map<Seq<char>, Timestamp>
    decreases listing.len(),
{
    if listing.len() == 0 {
        Map::empty()
    } else if is_issue_file(listing.last().name) {
        manifest_of(listing.drop_last()).insert(listing.last().name, listing.last().modified)
    } else {
        manifest_of(listing.drop_last())
    }
}

/// Collects the manifest of a directory listing: one entry per issue file,
/// other files left out.
pub fn collect_issue_file_mtimes(listing: &Vec<FileStamp>) -> (out: TextMap<Timestamp>)
    ensures
        out@ == manifest_of(listing.deep_view()),
{
    let mut out: TextMap<Timestamp> = TextMap::new();
    let mut i: usize = 0;
    proof {
        assert(listing.deep_view().take(0) == Seq::<FileStampView>::empty());
    }
    while i < listing.len()
        invariant
            i <= listing.len(),
            out@ == manifest_of(listing.deep_view().take(i as int)),
        decreases listing.len() - i,
    {
        proof {
            let next = listing.deep_view().take(i + 1);
            assert(next.drop_last() == listing.deep_view().take(i as int));
            assert(next.last() == listing@[i as int]@);
        }
        if is_issue_file_name(listing[i].name.as_str()) {
            out.insert(listing[i].name.clone(), listing[i].modified);
        }
        i += 1;
    }
    proof {
        assert(listing.deep_view().take(listing.len() as int) == listing.deep_view());
    }
    out
}

/// Whether two manifests name the same files with the same times.
pub fn same_manifest(a: &TextMap<Timestamp>, b: &TextMap<Timestamp>) -> (r: bool)
    ensures
        r == (a@ == b@),
{
    let count = a.len();
    let other = b.len();
    proof {
        if a@ == b@ {
            assert forall|k: Seq<char>| a.keys().contains(k) <==> b.keys().contains(k) by {
                assert(a@.dom().contains(k) == b@.dom().contains(k));
            }
            lemma_ascending_same_members(a.keys(), b.keys());
        }
    }
    if count != other {
        return false;
    }
    let mut i: usize = 0;
    while i < count
        invariant
            i <= count,
            count == a.entries().len(),
            count == b.entries().len(),
            a@ == b@ ==> a.keys() == b.keys(),
            forall|j: int|
                0 <= j < i ==> #[trigger] a.keys()[j] == b.keys()[j] && a.at(a.keys()[j]) == b.at(
                    a.keys()[j],
                ),
        decreases count - i,
    {
        let key = a.key_at(i);
        let mirror = b.key_at(i);
        if !same_text(key.as_str(), mirror.as_str()) {
            return false;
        }
        let left = a.value_at(i);
        let right = b.value_at(i);
        if !(left.seconds == right.seconds && left.nanos == right.nanos) {
            proof {
                if a@ == b@ {
                    assert(a@[key@] == b@[key@]);
                }
            }
            return false;
        }
        i += 1;
    }
    proof {
        assert(a.keys() =~= b.keys());
        assert forall|k: Seq<char>| a@.dom().contains(k) implies a@[k] == b@[k] by {
            let j = a.keys().index_of(k);
            assert(a.keys()[j] == k);
        }
        assert(a@ =~= b@);
    }
    true
}

/// The index as it was stored, with the manifest of the files it was built
/// from.
pub struct CacheEntry {
    pub index: IssueIndex,
    pub file_mtimes: TextMap<Timestamp>,
}

/// Whether a cache stored with the manifest `stored` may stand for a
/// directory whose manifest is now `current`: the two name the same files with
/// the same times.
pub open spec fn cache_is_valid(
    stored: Map<Seq<char>, Timestamp>,
    current: Map<Seq<char>, Timestamp>,
) -> bool {
    stored == current
}

/// Puts an index and the manifest it was built from into a cache entry.
pub fn write_cache(index: IssueIndex, mtimes: TextMap<Timestamp>) -> (out: CacheEntry)
    ensures
        out.index == index,
        out.file_mtimes == mtimes,
{
    CacheEntry { index, file_mtimes: mtimes }
}

/// The cached index, if there is a cache entry and it is still valid for
/// the directory whose manifest is `current`. `cached` is `None` where the
/// cache file is absent, unreadable or unparsable.
pub fn load_cache_if_valid(cached: Option<CacheEntry>, current: &TextMap<Timestamp>) -> (out:
    Option<IssueIndex>)
    ensures
        out is Some <==> cached is Some && cache_is_valid(cached->0.file_mtimes@, current@),
        out matches Some(index) ==> index == cached->0.index,
{
    match cached {
        None => None,
        Some(entry) => {
            if same_manifest(&entry.file_mtimes, current) {
                Some(entry.index)
            } else {
                None
            }
        },
    }
}

/// Whether no two entries of a listing have the same name, as in a
/// directory.
pub open spec fn distinct_names(listing: Seq<FileStampView>) -> bool {
    forall|i: int, j: int|
        0 <= i < j < listing.len() ==> (#[trigger] listing[i]).name != (#[trigger] listing[j]).name
}

/// Whether a listing holds an entry of this name.
pub open spec fn lists_name(listing: Seq<FileStampView>, name: Seq<char>) -> bool {
    exists|i: int| 0 <= i < listing.len() && (#[trigger] listing[i]).name == name
}

/// The manifest names the issue files of the listing, each with the time
/// that its entry gives.
pub proof fn lemma_manifest_of(listing: Seq<FileStampView>)
    ensures
        forall|name: Seq<char>| #[trigger]
            manifest_of(listing).dom().contains(name) <==> is_issue_file(name) && lists_name(
                listing,
                name,
            ),
        distinct_names(listing) ==> forall|i: int|
            0 <= i < listing.len() && is_issue_file((#[trigger] listing[i]).name) ==> manifest_of(
                listing,
            )[listing[i].name] == listing[i].modified,
    decreases listing.len(),
{
    if listing.len() > 0 {
        let before = listing.drop_last();
        let last = listing.last();
        lemma_manifest_of(before);
        assert forall|name: Seq<char>| #[trigger]
            manifest_of(listing).dom().contains(name) <==> is_issue_file(name) && lists_name(
                listing,
                name,
            ) by {
            let earlier = manifest_of(before).dom().contains(name);
            assert(earlier <==> is_issue_file(name) && lists_name(before, name));
            assert(manifest_of(listing).dom().contains(name) <==> earlier || (is_issue_file(
                last.name,
            ) && last.name == name));
            if lists_name(before, name) {
                let i = choose|i: int| 0 <= i < before.len() && (#[trigger] before[i]).name == name;
                assert(listing[i].name == name);
            }
            if last.name == name {
                assert(listing[listing.len() - 1].name == name);
            }
            if lists_name(listing, name) {
                let i = choose|i: int|
                    0 <= i < listing.len() && (#[trigger] listing[i]).name == name;
                if i < before.len() {
                    assert(before[i].name == name);
                } else {
                    assert(last.name == name);
                }
            }
        }
        if distinct_names(listing) {
            assert(distinct_names(before)) by {
                assert forall|i: int, j: int| 0 <= i < j < before.len() implies (
                #[trigger] before[i]).name != (#[trigger] before[j]).name by {
                    assert(listing[i].name != listing[j].name);
                }
            }
            assert forall|i: int|
                0 <= i < listing.len() && is_issue_file(
                    (#[trigger] listing[i]).name,
                ) implies manifest_of(listing)[listing[i].name] == listing[i].modified by {
                if i < before.len() {
                    assert(before[i] == listing[i]);
                    assert(listing[i].name != listing[listing.len() - 1].name);
                }
            }
        }
    }
}

/// What was stored for a directory is handed back as long as the directory
/// has not changed: the manifest of a listing is valid for that listing.
pub proof fn law_cache_round_trip(listing: Seq<FileStampView>)
    ensures
        cache_is_valid(manifest_of(listing), manifest_of(listing)),
{
}

/// An issue file added to the directory, at whatever place of the listing,
/// makes the cache invalid.
pub proof fn law_addition_invalidates(listing: Seq<FileStampView>, at: int, added: FileStampView)
    requires
        0 <= at <= listing.len(),
        is_issue_file(added.name),
        !lists_name(listing, added.name),
    ensures
        !cache_is_valid(manifest_of(listing), manifest_of(listing.insert(at, added))),
{
    lemma_manifest_of(listing);
    lemma_manifest_of(listing.insert(at, added));
    assert(listing.insert(at, added)[at] == added);
    assert(lists_name(listing.insert(at, added), added.name));
    assert(manifest_of(listing.insert(at, added)).dom().contains(added.name));
    assert(!manifest_of(listing).dom().contains(added.name));
}

/// An issue file removed from the directory makes the cache invalid.
pub proof fn law_removal_invalidates(listing: Seq<FileStampView>, at: int)
    requires
        distinct_names(listing),
        0 <= at < listing.len(),
        is_issue_file(listing[at].name),
    ensures
        !cache_is_valid(manifest_of(listing), manifest_of(listing.remove(at))),
{
    let name = listing[at].name;
    let rest = listing.remove(at);
    lemma_manifest_of(listing);
    lemma_manifest_of(rest);
    assert(lists_name(listing, name));
    assert(manifest_of(listing).dom().contains(name));
    if lists_name(rest, name) {
        let i = choose|i: int| 0 <= i < rest.len() && (#[trigger] rest[i]).name == name;
        if i < at {
            assert(rest[i] == listing[i]);
            assert(listing[i].name != listing[at].name);
        } else {
            assert(rest[i] == listing[i + 1]);
            assert(listing[at].name != listing[i + 1].name);
        }
    }
    assert(!manifest_of(rest).dom().contains(name));
}

/// An issue file whose modification time changed makes the cache invalid.
pub proof fn law_modification_invalidates(
    listing: Seq<FileStampView>,
    at: int,
    modified: Timestamp,
)
    requires
        distinct_names(listing),
        0 <= at < listing.len(),
        is_issue_file(listing[at].name),
        listing[at].modified != modified,
    ensures
        !cache_is_valid(
            manifest_of(listing),
            manifest_of(listing.update(at, (FileStampView { name: listing[at].name, modified }))),
        ),
{
    let name = listing[at].name;
    let changed = listing.update(at, FileStampView { name, modified });
    assert(distinct_names(changed)) by {
        assert forall|i: int, j: int| 0 <= i < j < changed.len() implies (
        #[trigger] changed[i]).name != (#[trigger] changed[j]).name by {
            assert(changed[i].name == listing[i].name);
            assert(changed[j].name == listing[j].name);
        }
    }
    lemma_manifest_of(listing);
    lemma_manifest_of(changed);
    assert(manifest_of(listing)[listing[at].name] == listing[at].modified);
    assert(manifest_of(changed)[changed[at].name] == changed[at].modified);
}

} // verus!
