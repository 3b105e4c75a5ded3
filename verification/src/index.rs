//! The in-memory index over issue records.

use crate::models::{DependencyLink, DependencyLinkView, IssueData, IssueView};
use crate::text::same_text;
use crate::text_map::TextMap;
use std::sync::Arc;
use vstd::prelude::*;

verus! {

/// The dependency type that makes one issue wait for another.
pub const BLOCKED_BY: &'static str = "blocked-by";

/// Whether `x` stands in the group that `groups` holds under `key`.
pub open spec fn in_group(groups: Map<Seq<char>, Seq<IssueView>>, key: Seq<char>, x: IssueView) -> bool {
    groups.dom().contains(key) && groups[key].contains(x)
}

/// `groups` with `r` appended to the group under `key`.
pub open spec fn grouped(groups: Map<Seq<char>, Seq<IssueView>>, key: Seq<char>, r: IssueView) -> Map<
    Seq<char>,
    Seq<IssueView>,
> {
    groups.insert(
        key,
        if groups.dom().contains(key) {
            groups[key].push(r)
        } else {
            seq![r]
        },
    )
}

/// `groups` with `r` appended under each key of `keys` in turn.
pub open spec fn grouped_all(
    groups: Map<Seq<char>, Seq<IssueView>>,
    keys: Seq<Seq<char>>,
    r: IssueView,
) -> Map<Seq<char>, Seq<IssueView>>
    decreases keys.len(),
{
    if keys.len() == 0 {
        groups
    } else {
        grouped(grouped_all(groups, keys.drop_last(), r), keys.last(), r)
    }
}

/// Whether `link` makes its owner wait for its target.
pub open spec fn is_blocking(link: DependencyLinkView) -> bool {
    link.dependency_type == BLOCKED_BY@
}

/// The targets of the blocking links among `links`, in order.
pub open spec fn blocking_targets(links: Seq<DependencyLinkView>) -> Seq<Seq<char>>
    decreases links.len(),
{
    if links.len() == 0 {
        Seq::empty()
    } else if is_blocking(links.last()) {
        blocking_targets(links.drop_last()).push(links.last().target)
    } else {
        blocking_targets(links.drop_last())
    }
}

/// Mathematical content of [`IssueIndex`].
pub struct IndexView {
    pub by_id: Map<Seq<char>, IssueView>,
    pub by_status: Map<Seq<char>, Seq<IssueView>>,
    pub by_type: Map<Seq<char>, Seq<IssueView>>,
    pub by_parent: Map<Seq<char>, Seq<IssueView>>,
    pub by_label: Map<Seq<char>, Seq<IssueView>>,
    pub reverse_dependencies: Map<Seq<char>, Seq<IssueView>>,
}

impl IndexView {
    /// The index of no records.
    pub open spec fn empty() -> IndexView {
        IndexView {
            by_id: Map::empty(),
            by_status: Map::empty(),
            by_type: Map::empty(),
            by_parent: Map::empty(),
            by_label: Map::empty(),
            reverse_dependencies: Map::empty(),
        }
    }

    /// The index after one more record has been folded in.
    pub open spec fn with(self, r: IssueView) -> IndexView {
        IndexView {
            by_id: self.by_id.insert(r.identifier, r),
            by_status: grouped(self.by_status, r.status, r),
            by_type: grouped(self.by_type, r.issue_type, r),
            by_parent: match r.parent {
                Some(parent) => grouped(self.by_parent, parent, r),
                None => self.by_parent,
            },
            by_label: grouped_all(self.by_label, r.labels, r),
            reverse_dependencies: grouped_all(
                self.reverse_dependencies,
                blocking_targets(r.dependencies),
                r,
            ),
        }
    }
}

/// The index of `records`, folded in from first to last.
pub open spec fn index_of_records(records: Seq<IssueView>) -> IndexView
    decreases records.len(),
{
    if records.len() == 0 {
        IndexView::empty()
    } else {
        index_of_records(records.drop_last()).with(records.last())
    }
}

/// The records that a map of shared records holds, by key.
pub open spec fn record_map(m: TextMap<Arc<IssueData>>) -> Map<Seq<char>, IssueView> {
    Map::new(|k: Seq<char>| m@.dom().contains(k), |k: Seq<char>| m@[k]@)
}

/// The groups that a map of shared record lists holds, by key.
pub open spec fn group_map(m: TextMap<Vec<Arc<IssueData>>>) -> Map<Seq<char>, Seq<IssueView>> {
    Map::new(|k: Seq<char>| m@.dom().contains(k), |k: Seq<char>| m@[k].deep_view())
}

/// Lookup tables over issue records. Each record is held once and shared by
/// every table it stands in.
pub struct IssueIndex {
    pub by_id: TextMap<Arc<IssueData>>,
    pub by_status: TextMap<Vec<Arc<IssueData>>>,
    pub by_type: TextMap<Vec<Arc<IssueData>>>,
    pub by_parent: TextMap<Vec<Arc<IssueData>>>,
    pub by_label: TextMap<Vec<Arc<IssueData>>>,
    pub reverse_dependencies: TextMap<Vec<Arc<IssueData>>>,
}

impl View for IssueIndex {
    type V = IndexView;

    open spec fn view(&self) -> IndexView {
        IndexView {
            by_id: record_map(self.by_id),
            by_status: group_map(self.by_status),
            by_type: group_map(self.by_type),
            by_parent: group_map(self.by_parent),
            by_label: group_map(self.by_label),
            reverse_dependencies: group_map(self.reverse_dependencies),
        }
    }
}

impl IssueIndex {
    /// An index of no records.
    pub fn new() -> (out: Self)
        ensures
            out@ == IndexView::empty(),
    {
        let out = IssueIndex {
            by_id: TextMap::new(),
            by_status: TextMap::new(),
            by_type: TextMap::new(),
            by_parent: TextMap::new(),
            by_label: TextMap::new(),
            reverse_dependencies: TextMap::new(),
        };
        proof {
            assert(out@.by_id =~= Map::<Seq<char>, IssueView>::empty());
            assert(out@.by_status =~= Map::<Seq<char>, Seq<IssueView>>::empty());
            assert(out@.by_type =~= Map::<Seq<char>, Seq<IssueView>>::empty());
            assert(out@.by_parent =~= Map::<Seq<char>, Seq<IssueView>>::empty());
            assert(out@.by_label =~= Map::<Seq<char>, Seq<IssueView>>::empty());
            assert(out@.reverse_dependencies =~= Map::<Seq<char>, Seq<IssueView>>::empty());
        }
        out
    }
}

/// Another handle to a shared record.
///
/// Trusted: wraps `Arc::clone`, which hands out a second pointer to the same
/// allocation, so the record reached through it is the same.
#[verifier::external_body]
pub(crate) fn share(record: &Arc<IssueData>) -> (out: Arc<IssueData>)
    ensures
        out == *record,
{
    Arc::clone(record)
}

/// Appends `record` to the group under `key`.
fn add_to_group(groups: &mut TextMap<Vec<Arc<IssueData>>>, key: &str, record: &Arc<IssueData>)
    ensures
        group_map(*final(groups)) == grouped(group_map(*old(groups)), key@, record@),
{
    let handle = share(record);
    groups.append(key, handle);
    proof {
        let before = group_map(*old(groups));
        let after = group_map(*groups);
        let want = grouped(before, key@, record@);
        assert(after.dom() =~= want.dom());
        assert forall|k: Seq<char>| after.dom().contains(k) implies #[trigger] after[k]
            == want[k] by {
            if k == key@ {
                if old(groups).has(key@) {
                    assert(groups@[k].deep_view() =~= old(groups)@[k].deep_view().push(record@));
                } else {
                    assert(groups@[k].deep_view() =~= seq![record@]);
                }
            }
        }
        assert(after =~= want);
    }
}

/// Appends `record` to the group under each of `keys` in turn.
fn add_to_groups(
    groups: &mut TextMap<Vec<Arc<IssueData>>>,
    keys: &Vec<String>,
    record: &Arc<IssueData>,
)
    ensures
        group_map(*final(groups)) == grouped_all(
            group_map(*old(groups)),
            keys.deep_view(),
            record@,
        ),
{
    let mut i: usize = 0;
    proof {
        assert(keys.deep_view().take(0) == Seq::<Seq<char>>::empty());
    }
    while i < keys.len()
        invariant
            i <= keys.len(),
            group_map(*groups) == grouped_all(
                group_map(*old(groups)),
                keys.deep_view().take(i as int),
                record@,
            ),
        decreases keys.len() - i,
    {
        proof {
            let next = keys.deep_view().take(i + 1);
            assert(next.drop_last() == keys.deep_view().take(i as int));
            assert(next.last() == keys@[i as int]@);
        }
        add_to_group(groups, keys[i].as_str(), record);
        i += 1;
    }
    proof {
        assert(keys.deep_view().take(keys.len() as int) == keys.deep_view());
    }
}

/// Appends `record` to the group under the target of each blocking link.
fn add_to_blocked(
    groups: &mut TextMap<Vec<Arc<IssueData>>>,
    links: &Vec<DependencyLink>,
    record: &Arc<IssueData>,
)
    ensures
        group_map(*final(groups)) == grouped_all(
            group_map(*old(groups)),
            blocking_targets(links.deep_view()),
            record@,
        ),
{
    let mut j: usize = 0;
    proof {
        assert(links.deep_view().take(0) == Seq::<DependencyLinkView>::empty());
    }
    while j < links.len()
        invariant
            j <= links.len(),
            group_map(*groups) == grouped_all(
                group_map(*old(groups)),
                blocking_targets(links.deep_view().take(j as int)),
                record@,
            ),
        decreases links.len() - j,
    {
        proof {
            let next = links.deep_view().take(j + 1);
            assert(next.drop_last() == links.deep_view().take(j as int));
            assert(next.last() == links@[j as int]@);
        }
        if same_text(links[j].dependency_type.as_str(), BLOCKED_BY) {
            proof {
                let targets = blocking_targets(links.deep_view().take(j + 1));
                assert(targets.drop_last() == blocking_targets(links.deep_view().take(j as int)));
            }
            add_to_group(groups, links[j].target.as_str(), record);
        }
        j += 1;
    }
    proof {
        assert(links.deep_view().take(links.len() as int) == links.deep_view());
    }
}

/// Folds one record into every table of the index.
pub fn add_issue_to_index(index: &mut IssueIndex, issue: IssueData)
    ensures
        final(index)@ == old(index)@.with(issue@),
{
    let shared = Arc::new(issue);
    index.by_id.insert(shared.identifier.clone(), share(&shared));
    proof {
        assert(record_map(index.by_id) =~= record_map(old(index).by_id).insert(
            issue@.identifier,
            issue@,
        ));
    }
    add_to_group(&mut index.by_status, shared.status.as_str(), &shared);
    add_to_group(&mut index.by_type, shared.issue_type.as_str(), &shared);
    match &shared.parent {
        Some(parent) => {
            add_to_group(&mut index.by_parent, parent.as_str(), &shared);
        },
        None => {},
    }
    add_to_groups(&mut index.by_label, &shared.labels, &shared);
    add_to_blocked(&mut index.reverse_dependencies, &shared.dependencies, &shared);
}

/// Builds the index of `records`, folding them in from first to last.
pub fn build_index(records: Vec<IssueData>) -> (index: IssueIndex)
    ensures
        index@ == index_of_records(records.deep_view()),
{
    broadcast use vstd::std_specs::vec::axiom_spec_into_iter;

    let mut index = IssueIndex::new();
    let ghost all = records.deep_view();
    let ghost raw = records@;
    for record in it: records.into_iter()
        invariant
            it.seq() == raw,
            all.len() == raw.len(),
            forall|k: int| 0 <= k < raw.len() ==> #[trigger] all[k] == raw[k]@,
            index@ == index_of_records(all.take(it.index() as int)),
    {
        proof {
            let upto = all.take(it.index() + 1);
            assert(upto.drop_last() == all.take(it.index() as int));
            assert(upto.last() == record@);
        }
        add_issue_to_index(&mut index, record);
    }
    proof {
        assert(all.take(all.len() as int) == all);
    }
    index
}

} // verus!
