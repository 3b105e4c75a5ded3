//! What holds of every index: which records stand in which table.

use crate::index::{
    blocking_targets, grouped, grouped_all, in_group, index_of_records, is_blocking, IndexView,
};
use crate::models::{DependencyLinkView, IssueView};
use vstd::prelude::*;

verus! {

/// Whether `x` declares a blocking dependency on `target`.
pub open spec fn blocked_by(x: IssueView, target: Seq<char>) -> bool {
    exists|i: int|
        0 <= i < x.dependencies.len() && is_blocking(#[trigger] x.dependencies[i])
            && x.dependencies[i].target == target
}

/// Whether some record of `records` has the identifier `id`.
pub open spec fn has_identifier(records: Seq<IssueView>, id: Seq<char>) -> bool {
    exists|i: int| 0 <= i < records.len() && (#[trigger] records[i]).identifier == id
}

/// Whether no two records of `records` share an identifier.
pub open spec fn identifiers_unique(records: Seq<IssueView>) -> bool {
    forall|i: int, j: int|
        0 <= i < records.len() && 0 <= j < records.len() && (#[trigger] records[i]).identifier == (
        #[trigger] records[j]).identifier ==> i == j
}

/// Appending under one key adds the record to that group and to no other.
pub proof fn lemma_grouped(
    groups: Map<Seq<char>, Seq<IssueView>>,
    key: Seq<char>,
    r: IssueView,
    k: Seq<char>,
    x: IssueView,
)
    ensures
        in_group(grouped(groups, key, r), k, x) <==> in_group(groups, k, x) || (k == key && x == r),
{
    if k == key {
        if groups.dom().contains(key) {
            let before = groups[key];
            let after = before.push(r);
            if before.contains(x) {
                let i = before.index_of(x);
                assert(after[i] == x);
            }
            if after.contains(x) && x != r {
                let i = after.index_of(x);
                assert(before[i] == x);
            }
            assert(after[before.len() as int] == r);
        } else {
            assert(seq![r][0] == r);
        }
    }
}

/// Appending under several keys adds the record to exactly those groups.
pub proof fn lemma_grouped_all(
    groups: Map<Seq<char>, Seq<IssueView>>,
    keys: Seq<Seq<char>>,
    r: IssueView,
    k: Seq<char>,
    x: IssueView,
)
    ensures
        in_group(grouped_all(groups, keys, r), k, x) <==> in_group(groups, k, x) || (keys.contains(k)
            && x == r),
    decreases keys.len(),
{
    if keys.len() > 0 {
        let rest = keys.drop_last();
        lemma_grouped_all(groups, rest, r, k, x);
        lemma_grouped(grouped_all(groups, rest, r), keys.last(), r, k, x);
        if rest.contains(k) {
            let i = rest.index_of(k);
            assert(keys[i] == k);
        }
        if keys.contains(k) && k != keys.last() {
            let i = keys.index_of(k);
            assert(rest[i] == k);
        }
        assert(keys[keys.len() - 1] == keys.last());
    }
}

/// The blocking targets of a list of links are the targets of its blocking
/// links.
pub proof fn lemma_blocking_targets(links: Seq<DependencyLinkView>, target: Seq<char>)
    ensures
        blocking_targets(links).contains(target) <==> exists|i: int|
            0 <= i < links.len() && is_blocking(#[trigger] links[i]) && links[i].target == target,
    decreases links.len(),
{
    if links.len() > 0 {
        let rest = links.drop_last();
        lemma_blocking_targets(rest, target);
        let found = blocking_targets(links);
        let before = blocking_targets(rest);
        if found.contains(target) {
            if is_blocking(links.last()) {
                let i = found.index_of(target);
                if i < before.len() {
                    assert(before[i] == target);
                    let w = choose|w: int|
                        0 <= w < rest.len() && is_blocking(#[trigger] rest[w]) && rest[w].target
                            == target;
                    assert(links[w] == rest[w]);
                } else {
                    assert(links[links.len() - 1].target == target);
                }
            } else {
                let w = choose|w: int|
                    0 <= w < rest.len() && is_blocking(#[trigger] rest[w]) && rest[w].target
                        == target;
                assert(links[w] == rest[w]);
            }
        }
        if exists|i: int|
            0 <= i < links.len() && is_blocking(#[trigger] links[i]) && links[i].target == target {
            let i = choose|i: int|
                0 <= i < links.len() && is_blocking(#[trigger] links[i]) && links[i].target
                    == target;
            if i < rest.len() {
                assert(rest[i] == links[i]);
                assert(before.contains(target));
                let p = before.index_of(target);
                assert(found[p] == target);
            } else {
                assert(found[found.len() - 1] == target);
            }
        }
    }
}

/// Membership in a sequence with one more item.
proof fn lemma_contains_last(records: Seq<IssueView>, x: IssueView)
    requires
        records.len() > 0,
    ensures
        records.contains(x) <==> records.drop_last().contains(x) || x == records.last(),
{
    let rest = records.drop_last();
    if rest.contains(x) {
        let i = rest.index_of(x);
        assert(records[i] == x);
    }
    if records.contains(x) && x != records.last() {
        let i = records.index_of(x);
        assert(rest[i] == x);
    }
    assert(records[records.len() - 1] == records.last());
}

/// An identifier has an entry in `by_id` exactly when some record carries
/// it, and the entry is a record with that identifier.
pub proof fn law_by_id(records: Seq<IssueView>, id: Seq<char>)
    ensures
        index_of_records(records).by_id.dom().contains(id) <==> has_identifier(records, id),
        has_identifier(records, id) ==> index_of_records(records).by_id[id].identifier == id
            && records.contains(index_of_records(records).by_id[id]),
    decreases records.len(),
{
    if records.len() > 0 {
        let rest = records.drop_last();
        law_by_id(rest, id);
        lemma_contains_last(records, index_of_records(records).by_id[id]);
        if has_identifier(rest, id) {
            let i = choose|i: int| 0 <= i < rest.len() && (#[trigger] rest[i]).identifier == id;
            assert(records[i] == rest[i]);
        }
        if has_identifier(records, id) {
            let i = choose|i: int|
                0 <= i < records.len() && (#[trigger] records[i]).identifier == id;
            if i < rest.len() {
                assert(rest[i] == records[i]);
            }
        }
        assert(records[records.len() - 1] == records.last());
    }
}

/// Where identifiers are unique, `by_id` maps each record's identifier to
/// that record.
pub proof fn law_by_id_unique(records: Seq<IssueView>, i: int)
    requires
        identifiers_unique(records),
        0 <= i < records.len(),
    ensures
        index_of_records(records).by_id[records[i].identifier] == records[i],
    decreases records.len(),
{
    let rest = records.drop_last();
    if i < records.len() - 1 {
        assert forall|a: int, b: int|
            0 <= a < rest.len() && 0 <= b < rest.len() && (#[trigger] rest[a]).identifier == (
            #[trigger] rest[b]).identifier implies a == b by {
            assert(records[a] == rest[a]);
            assert(records[b] == rest[b]);
        }
        law_by_id_unique(rest, i);
        assert(rest[i] == records[i]);
        assert(records[records.len() - 1] == records.last());
    }
}

/// A record stands in `by_status[s]` exactly when it is indexed and its
/// status is `s`.
pub proof fn law_by_status(records: Seq<IssueView>, status: Seq<char>, x: IssueView)
    ensures
        in_group(index_of_records(records).by_status, status, x) <==> records.contains(x)
            && x.status == status,
    decreases records.len(),
{
    if records.len() > 0 {
        let rest = records.drop_last();
        law_by_status(rest, status, x);
        lemma_contains_last(records, x);
        lemma_grouped(
            index_of_records(rest).by_status,
            records.last().status,
            records.last(),
            status,
            x,
        );
    }
}

/// A record stands in `by_type[t]` exactly when it is indexed and its type
/// is `t`.
pub proof fn law_by_type(records: Seq<IssueView>, issue_type: Seq<char>, x: IssueView)
    ensures
        in_group(index_of_records(records).by_type, issue_type, x) <==> records.contains(x)
            && x.issue_type == issue_type,
    decreases records.len(),
{
    if records.len() > 0 {
        let rest = records.drop_last();
        law_by_type(rest, issue_type, x);
        lemma_contains_last(records, x);
        lemma_grouped(
            index_of_records(rest).by_type,
            records.last().issue_type,
            records.last(),
            issue_type,
            x,
        );
    }
}

/// A record stands in `by_parent[p]` exactly when it is indexed and its
/// parent is `p`.
pub proof fn law_by_parent(records: Seq<IssueView>, parent: Seq<char>, x: IssueView)
    ensures
        in_group(index_of_records(records).by_parent, parent, x) <==> records.contains(x)
            && x.parent == Some(parent),
    decreases records.len(),
{
    if records.len() > 0 {
        let rest = records.drop_last();
        law_by_parent(rest, parent, x);
        lemma_contains_last(records, x);
        match records.last().parent {
            Some(p) => {
                lemma_grouped(index_of_records(rest).by_parent, p, records.last(), parent, x);
            },
            None => {},
        }
    }
}

/// A record stands in `by_label[l]` exactly when it is indexed and carries
/// the label `l`.
pub proof fn law_by_label(records: Seq<IssueView>, label: Seq<char>, x: IssueView)
    ensures
        in_group(index_of_records(records).by_label, label, x) <==> records.contains(x)
            && x.labels.contains(label),
    decreases records.len(),
{
    if records.len() > 0 {
        let rest = records.drop_last();
        law_by_label(rest, label, x);
        lemma_contains_last(records, x);
        lemma_grouped_all(
            index_of_records(rest).by_label,
            records.last().labels,
            records.last(),
            label,
            x,
        );
    }
}

/// A record stands in `reverse_dependencies[t]` exactly when it is indexed
/// and declares a blocking dependency on `t`.
pub proof fn law_reverse_dependencies(records: Seq<IssueView>, target: Seq<char>, x: IssueView)
    ensures
        in_group(index_of_records(records).reverse_dependencies, target, x) <==> records.contains(
            x,
        ) && blocked_by(x, target),
    decreases records.len(),
{
    if records.len() > 0 {
        let rest = records.drop_last();
        law_reverse_dependencies(rest, target, x);
        lemma_contains_last(records, x);
        lemma_grouped_all(
            index_of_records(rest).reverse_dependencies,
            blocking_targets(records.last().dependencies),
            records.last(),
            target,
            x,
        );
        lemma_blocking_targets(records.last().dependencies, target);
    }
}

/// Whether two indexes hold the same records in every group, in whatever
/// order.
pub open spec fn same_groupings(a: IndexView, b: IndexView) -> bool {
    forall|k: Seq<char>, x: IssueView|
        #![trigger in_group(a.by_status, k, x)]
        #![trigger in_group(a.by_type, k, x)]
        #![trigger in_group(a.by_parent, k, x)]
        #![trigger in_group(a.by_label, k, x)]
        #![trigger in_group(a.reverse_dependencies, k, x)]
        {
            &&& in_group(a.by_status, k, x) <==> in_group(b.by_status, k, x)
            &&& in_group(a.by_type, k, x) <==> in_group(b.by_type, k, x)
            &&& in_group(a.by_parent, k, x) <==> in_group(b.by_parent, k, x)
            &&& in_group(a.by_label, k, x) <==> in_group(b.by_label, k, x)
            &&& in_group(a.reverse_dependencies, k, x) <==> in_group(b.reverse_dependencies, k, x)
        }
}

/// Building the index again from the same records gives the same index.
pub proof fn law_rebuild_is_equal(first: Seq<IssueView>, second: Seq<IssueView>)
    requires
        first == second,
    ensures
        index_of_records(first) == index_of_records(second),
{
}

/// Building the index from the same records read in another order gives
/// the same `by_id` and the same members in every group.
pub proof fn law_rebuild_is_stable(first: Seq<IssueView>, second: Seq<IssueView>)
    requires
        identifiers_unique(first),
        identifiers_unique(second),
        forall|x: IssueView| first.contains(x) <==> second.contains(x),
    ensures
        index_of_records(first).by_id == index_of_records(second).by_id,
        same_groupings(index_of_records(first), index_of_records(second)),
{
    let a = index_of_records(first);
    let b = index_of_records(second);
    assert forall|k: Seq<char>, x: IssueView|
        #![trigger in_group(a.by_status, k, x)]
        #![trigger in_group(a.by_type, k, x)]
        #![trigger in_group(a.by_parent, k, x)]
        #![trigger in_group(a.by_label, k, x)]
        #![trigger in_group(a.reverse_dependencies, k, x)]
        {
            &&& in_group(a.by_status, k, x) <==> in_group(b.by_status, k, x)
            &&& in_group(a.by_type, k, x) <==> in_group(b.by_type, k, x)
            &&& in_group(a.by_parent, k, x) <==> in_group(b.by_parent, k, x)
            &&& in_group(a.by_label, k, x) <==> in_group(b.by_label, k, x)
            &&& in_group(a.reverse_dependencies, k, x) <==> in_group(b.reverse_dependencies, k, x)
        } by {
        law_by_status(first, k, x);
        law_by_status(second, k, x);
        law_by_type(first, k, x);
        law_by_type(second, k, x);
        law_by_parent(first, k, x);
        law_by_parent(second, k, x);
        law_by_label(first, k, x);
        law_by_label(second, k, x);
        law_reverse_dependencies(first, k, x);
        law_reverse_dependencies(second, k, x);
    }
    assert forall|id: Seq<char>| a.by_id.dom().contains(id) == b.by_id.dom().contains(id) by {
        law_by_id(first, id);
        law_by_id(second, id);
        if has_identifier(first, id) {
            let i = choose|i: int| 0 <= i < first.len() && (#[trigger] first[i]).identifier == id;
            assert(first.contains(first[i]));
            let j = second.index_of(first[i]);
            assert(second[j].identifier == id);
        }
        if has_identifier(second, id) {
            let i = choose|i: int|
                0 <= i < second.len() && (#[trigger] second[i]).identifier == id;
            assert(second.contains(second[i]));
            let j = first.index_of(second[i]);
            assert(first[j].identifier == id);
        }
    }
    assert forall|id: Seq<char>| a.by_id.dom().contains(id) implies a.by_id[id] == b.by_id[id] by {
        law_by_id(first, id);
        law_by_id(second, id);
        let x = a.by_id[id];
        let i = first.index_of(x);
        law_by_id_unique(first, i);
        let j = second.index_of(x);
        law_by_id_unique(second, j);
    }
    assert(a.by_id =~= b.by_id);
}

} // verus!
