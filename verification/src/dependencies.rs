//! Adding and removing dependencies between issues, and finding the issues
//! that are ready to be worked on.

use crate::dependency_graph::{cycle_from, detect_cycle, DependencyGraph, Successors};
use crate::error::{unit_result, KanbusError, KanbusErrorView};
use crate::index::{blocking_targets, is_blocking, BLOCKED_BY};
use crate::models::{DependencyLink, DependencyLinkView, IssueData, IssueView};
use crate::order::{precedes, text_lt};
use crate::text::{owned, same_text};
use crate::text_map::TextMap;
use vstd::prelude::*;

verus! {

/// The dependency type that links issues without making one wait.
pub const RELATES_TO: &'static str = "relates-to";

/// Whether `dependency_type` is one of the dependency types: `blocked-by`
/// or `relates-to`.
pub open spec fn is_dependency_type(dependency_type: Seq<char>) -> bool {
    dependency_type == BLOCKED_BY@ || dependency_type == RELATES_TO@
}

/// The error for a dependency type that is none.
pub open spec fn invalid_type_error() -> KanbusErrorView {
    KanbusErrorView::IssueOperation("invalid dependency type"@)
}

/// The error for a dependency that would close a cycle.
pub open spec fn cycle_error() -> KanbusErrorView {
    KanbusErrorView::IssueOperation("cycle detected"@)
}

/// Checks that `dependency_type` is one of the dependency types.
pub fn validate_dependency_type(dependency_type: &str) -> (out: Result<(), KanbusError>)
    ensures
        unit_result(out) == (if is_dependency_type(dependency_type@) {
            Ok::<(), KanbusErrorView>(())
        } else {
            Err(invalid_type_error())
        }),
{
    if same_text(dependency_type, BLOCKED_BY) || same_text(dependency_type, RELATES_TO) {
        Ok(())
    } else {
        Err(KanbusError::IssueOperation(owned("invalid dependency type")))
    }
}

/// Whether `links` holds a link of type `dependency_type` to `target`.
pub open spec fn has_link(links: Seq<DependencyLinkView>, target: Seq<char>, dependency_type: Seq<char>) -> bool {
    exists|i: int|
        0 <= i < links.len() && (#[trigger] links[i]).target == target && links[i].dependency_type
            == dependency_type
}

/// Whether `issue` has a dependency of type `dependency_type` on
/// `target_id`.
pub fn has_dependency(issue: &IssueData, target_id: &str, dependency_type: &str) -> (out: bool)
    ensures
        out == has_link(issue@.dependencies, target_id@, dependency_type@),
{
    let mut i: usize = 0;
    while i < issue.dependencies.len()
        invariant
            i <= issue.dependencies.len(),
            forall|j: int|
                0 <= j < i ==> !((#[trigger] issue@.dependencies[j]).target == target_id@
                    && issue@.dependencies[j].dependency_type == dependency_type@),
        decreases issue.dependencies.len() - i,
    {
        proof {
            assert(issue@.dependencies[i as int] == issue.dependencies@[i as int]@);
        }
        if same_text(issue.dependencies[i].target.as_str(), target_id) && same_text(
            issue.dependencies[i].dependency_type.as_str(),
            dependency_type,
        ) {
            return true;
        }
        i += 1;
    }
    false
}

/// Whether some link of `links` is a blocking one.
pub open spec fn any_blocking(links: Seq<DependencyLinkView>) -> bool {
    exists|i: int| 0 <= i < links.len() && is_blocking(#[trigger] links[i])
}

/// Whether `issue` waits for another issue.
pub fn is_blocked(issue: &IssueData) -> (out: bool)
    ensures
        out == any_blocking(issue@.dependencies),
{
    let mut i: usize = 0;
    while i < issue.dependencies.len()
        invariant
            i <= issue.dependencies.len(),
            forall|j: int| 0 <= j < i ==> !is_blocking(#[trigger] issue@.dependencies[j]),
        decreases issue.dependencies.len() - i,
    {
        proof {
            assert(issue@.dependencies[i as int] == issue.dependencies@[i as int]@);
        }
        if same_text(issue.dependencies[i].dependency_type.as_str(), BLOCKED_BY) {
            return true;
        }
        i += 1;
    }
    false
}

/// The graph of blocking dependencies among `issues`: each issue that waits
/// for others, with the issues it waits for. Of two issues with one
/// identifier the later one counts.
pub open spec fn graph_of_issues(issues: Seq<IssueView>) -> Successors
    decreases issues.len(),
{
    if issues.len() == 0 {
        Map::empty()
    } else {
        let rest = graph_of_issues(issues.drop_last());
        let targets = blocking_targets(issues.last().dependencies);
        if targets.len() > 0 {
            rest.insert(issues.last().identifier, targets)
        } else {
            rest
        }
    }
}

/// The targets of the blocking links of `links`, in order.
fn blocked_targets(links: &Vec<DependencyLink>) -> (out: Vec<String>)
    ensures
        out.deep_view() == blocking_targets(links.deep_view()),
{
    let mut out: Vec<String> = Vec::new();
    let mut i: usize = 0;
    proof {
        assert(links.deep_view().take(0) == Seq::<DependencyLinkView>::empty());
        assert(out.deep_view() =~= Seq::<Seq<char>>::empty());
    }
    while i < links.len()
        invariant
            i <= links.len(),
            out.deep_view() == blocking_targets(links.deep_view().take(i as int)),
        decreases links.len() - i,
    {
        proof {
            let next = links.deep_view().take(i + 1);
            assert(next.drop_last() == links.deep_view().take(i as int));
            assert(next.last() == links@[i as int]@);
        }
        if same_text(links[i].dependency_type.as_str(), BLOCKED_BY) {
            let ghost before = out.deep_view();
            out.push(links[i].target.clone());
            proof {
                assert(out.deep_view() =~= before.push(links@[i as int]@.target));
            }
        }
        i += 1;
    }
    proof {
        assert(links.deep_view().take(links.len() as int) == links.deep_view());
    }
    out
}

/// Builds the graph of blocking dependencies among `issues`.
pub fn build_dependency_graph(issues: &Vec<IssueData>) -> (out: DependencyGraph)
    ensures
        out@ == graph_of_issues(issues.deep_view()),
{
    let mut graph = DependencyGraph { edges: TextMap::new() };
    let mut i: usize = 0;
    proof {
        assert(issues.deep_view().take(0) == Seq::<IssueView>::empty());
        assert(graph@ =~= Map::<Seq<char>, Seq<Seq<char>>>::empty());
    }
    while i < issues.len()
        invariant
            i <= issues.len(),
            graph@ == graph_of_issues(issues.deep_view().take(i as int)),
        decreases issues.len() - i,
    {
        proof {
            let next = issues.deep_view().take(i + 1);
            assert(next.drop_last() == issues.deep_view().take(i as int));
            assert(next.last() == issues@[i as int]@);
        }
        let targets = blocked_targets(&issues[i].dependencies);
        if targets.len() > 0 {
            let ghost before = graph@;
            graph.edges.insert(issues[i].identifier.clone(), targets);
            proof {
                assert(graph@ =~= before.insert(issues@[i as int]@.identifier, targets.deep_view()));
            }
        }
        i += 1;
    }
    proof {
        assert(issues.deep_view().take(issues.len() as int) == issues.deep_view());
    }
    graph
}

/// `g` with one more edge, from `source` to `target`.
pub open spec fn with_edge(g: Successors, source: Seq<char>, target: Seq<char>) -> Successors {
    g.insert(
        source,
        if g.dom().contains(source) {
            g[source].push(target)
        } else {
            seq![target]
        },
    )
}

/// Checks that making `source_id` wait for `target_id` closes no cycle that
/// `source_id` reaches.
pub fn ensure_no_cycle(graph: DependencyGraph, source_id: &str, target_id: &str) -> (out: Result<
    (),
    KanbusError,
>)
    ensures
        unit_result(out) == (if cycle_from(with_edge(graph@, source_id@, target_id@), source_id@) {
            Err::<(), KanbusErrorView>(cycle_error())
        } else {
            Ok(())
        }),
{
    let mut graph = graph;
    let ghost before = graph@;
    graph.edges.append(source_id, owned(target_id));
    proof {
        let want = with_edge(before, source_id@, target_id@);
        assert(graph@.dom() =~= want.dom());
        assert forall|k: Seq<char>| graph@.dom().contains(k) implies #[trigger] graph@[k]
            == want[k] by {
            if k == source_id@ {
                if before.dom().contains(k) {
                    assert(graph@[k] =~= before[k].push(target_id@));
                } else {
                    assert(graph@[k] =~= seq![target_id@]);
                }
            }
        }
        assert(graph@ =~= want);
    }
    if detect_cycle(&graph, source_id) {
        Err(KanbusError::IssueOperation(owned("cycle detected")))
    } else {
        Ok(())
    }
}

/// Mathematical content of a result that holds an issue.
pub open spec fn issue_result(out: Result<IssueData, KanbusError>) -> Result<IssueView, KanbusErrorView> {
    match out {
        Ok(issue) => Ok(issue@),
        Err(error) => Err(error@),
    }
}

/// What adding a dependency comes to: the type must be a dependency type; a
/// blocking dependency must close no cycle among `issues`; a link that is
/// there already is not added again.
pub open spec fn dependency_added(
    source: IssueView,
    target: Seq<char>,
    dependency_type: Seq<char>,
    issues: Seq<IssueView>,
) -> Result<IssueView, KanbusErrorView> {
    if !is_dependency_type(dependency_type) {
        Err(invalid_type_error())
    } else if dependency_type == BLOCKED_BY@ && cycle_from(
        with_edge(graph_of_issues(issues), source.identifier, target),
        source.identifier,
    ) {
        Err(cycle_error())
    } else if has_link(source.dependencies, target, dependency_type) {
        Ok(source)
    } else {
        Ok(
            IssueView {
                dependencies: source.dependencies.push(
                    DependencyLinkView { target, dependency_type },
                ),
                ..source
            },
        )
    }
}

/// Adds a dependency of `source` on `target_id`. `issues` are the issues of
/// the project, among which a blocking dependency must close no cycle. The
/// caller has found both issues and stores the issue that is handed back.
pub fn add_dependency(
    source: IssueData,
    target_id: &str,
    dependency_type: &str,
    issues: &Vec<IssueData>,
) -> (out: Result<IssueData, KanbusError>)
    ensures
        issue_result(out) == dependency_added(
            source@,
            target_id@,
            dependency_type@,
            issues.deep_view(),
        ),
{
    match validate_dependency_type(dependency_type) {
        Ok(()) => {},
        Err(error) => {
            return Err(error);
        },
    }
    if same_text(dependency_type, BLOCKED_BY) {
        let graph = build_dependency_graph(issues);
        match ensure_no_cycle(graph, source.identifier.as_str(), target_id) {
            Ok(()) => {},
            Err(error) => {
                return Err(error);
            },
        }
    }
    if has_dependency(&source, target_id, dependency_type) {
        return Ok(source);
    }
    let mut updated = source;
    let ghost before = updated.dependencies.deep_view();
    let link = DependencyLink { target: owned(target_id), dependency_type: owned(dependency_type) };
    updated.dependencies.push(link);
    proof {
        assert(updated.dependencies.deep_view() =~= before.push(link@));
    }
    Ok(updated)
}

/// `links` without the links of type `dependency_type` to `target`.
pub open spec fn without_link(
    links: Seq<DependencyLinkView>,
    target: Seq<char>,
    dependency_type: Seq<char>,
) -> Seq<DependencyLinkView>
    decreases links.len(),
{
    if links.len() == 0 {
        Seq::empty()
    } else if links.last().target == target && links.last().dependency_type == dependency_type {
        without_link(links.drop_last(), target, dependency_type)
    } else {
        without_link(links.drop_last(), target, dependency_type).push(links.last())
    }
}

/// What removing a dependency comes to: the type must be a dependency type;
/// every link of that type to the target goes.
pub open spec fn dependency_removed(source: IssueView, target: Seq<char>, dependency_type: Seq<char>) -> Result<
    IssueView,
    KanbusErrorView,
> {
    if !is_dependency_type(dependency_type) {
        Err(invalid_type_error())
    } else {
        Ok(
            IssueView {
                dependencies: without_link(source.dependencies, target, dependency_type),
                ..source
            },
        )
    }
}

/// Removes the dependency of `source` on `target_id`. The caller has found
/// the issue and stores the issue that is handed back.
pub fn remove_dependency(source: IssueData, target_id: &str, dependency_type: &str) -> (out: Result<
    IssueData,
    KanbusError,
>)
    ensures
        issue_result(out) == dependency_removed(source@, target_id@, dependency_type@),
{
    match validate_dependency_type(dependency_type) {
        Ok(()) => {},
        Err(error) => {
            return Err(error);
        },
    }
    let mut kept: Vec<DependencyLink> = Vec::new();
    let mut i: usize = 0;
    proof {
        assert(source.dependencies.deep_view().take(0) == Seq::<DependencyLinkView>::empty());
        assert(kept.deep_view() =~= Seq::<DependencyLinkView>::empty());
    }
    while i < source.dependencies.len()
        invariant
            i <= source.dependencies.len(),
            kept.deep_view() == without_link(
                source.dependencies.deep_view().take(i as int),
                target_id@,
                dependency_type@,
            ),
        decreases source.dependencies.len() - i,
    {
        proof {
            let next = source.dependencies.deep_view().take(i + 1);
            assert(next.drop_last() == source.dependencies.deep_view().take(i as int));
            assert(next.last() == source.dependencies@[i as int]@);
        }
        let link = &source.dependencies[i];
        if !(same_text(link.target.as_str(), target_id) && same_text(
            link.dependency_type.as_str(),
            dependency_type,
        )) {
            let ghost before = kept.deep_view();
            kept.push(link.clone());
            proof {
                assert(kept.deep_view() =~= before.push(link@));
            }
        }
        i += 1;
    }
    proof {
        assert(source.dependencies.deep_view().take(source.dependencies.len() as int)
            == source.dependencies.deep_view());
    }
    let mut updated = source;
    updated.dependencies = kept;
    Ok(updated)
}

/// Whether an issue is ready: it is not closed and waits for no other
/// issue.
pub open spec fn is_ready(issue: IssueView) -> bool {
    issue.status != "closed"@ && !any_blocking(issue.dependencies)
}

/// The ready issues of `issues`, in order.
pub open spec fn ready_of(issues: Seq<IssueView>) -> Seq<IssueView>
    decreases issues.len(),
{
    if issues.len() == 0 {
        Seq::empty()
    } else if is_ready(issues.last()) {
        ready_of(issues.drop_last()).push(issues.last())
    } else {
        ready_of(issues.drop_last())
    }
}

/// The place at which an issue with the identifier `id` goes into `sorted`:
/// before the first issue whose identifier comes after `id`.
pub open spec fn place_by_identifier(sorted: Seq<IssueView>, id: Seq<char>) -> int
    decreases sorted.len(),
{
    if sorted.len() == 0 {
        0
    } else if text_lt(id, sorted[0].identifier) {
        0
    } else {
        1 + place_by_identifier(sorted.drop_first(), id)
    }
}

/// `issues` in ascending order of identifier; issues with one identifier
/// stay in the order in which they came.
pub open spec fn sorted_by_identifier(issues: Seq<IssueView>) -> Seq<IssueView>
    decreases issues.len(),
{
    if issues.len() == 0 {
        Seq::empty()
    } else {
        let rest = sorted_by_identifier(issues.drop_last());
        rest.insert(place_by_identifier(rest, issues.last().identifier), issues.last())
    }
}

/// The ready issues among `issues`, in ascending order of identifier.
pub fn list_ready_issues(issues: Vec<IssueData>) -> (out: Vec<IssueData>)
    ensures
        out.deep_view() == sorted_by_identifier(ready_of(issues.deep_view())),
{
    broadcast use vstd::std_specs::vec::axiom_spec_into_iter;

    let mut out: Vec<IssueData> = Vec::new();
    let ghost all = issues.deep_view();
    let ghost raw = issues@;
    proof {
        assert(all.take(0) == Seq::<IssueView>::empty());
        assert(out.deep_view() =~= Seq::<IssueView>::empty());
    }
    for issue in it: issues.into_iter()
        invariant
            it.seq() == raw,
            all.len() == raw.len(),
            forall|k: int| 0 <= k < raw.len() ==> #[trigger] all[k] == raw[k]@,
            out.deep_view() == sorted_by_identifier(ready_of(all.take(it.index() as int))),
    {
        proof {
            let next = all.take(it.index() + 1);
            assert(next.drop_last() == all.take(it.index() as int));
            assert(next.last() == issue@);
        }
        if !same_text(issue.status.as_str(), "closed") && !is_blocked(&issue) {
            let ghost sorted = out.deep_view();
            let mut place: usize = 0;
            proof {
                assert(sorted.skip(0) == sorted);
            }
            while place < out.len() && !precedes(
                issue.identifier.as_str(),
                out[place].identifier.as_str(),
            )
                invariant
                    place <= out.len(),
                    sorted == out.deep_view(),
                    place_by_identifier(sorted, issue@.identifier) == place + place_by_identifier(
                        sorted.skip(place as int),
                        issue@.identifier,
                    ),
                decreases out.len() - place,
            {
                proof {
                    let rest = sorted.skip(place as int);
                    assert(rest[0] == out@[place as int]@);
                    assert(rest.drop_first() =~= sorted.skip(place + 1));
                }
                place += 1;
            }
            proof {
                let rest = sorted.skip(place as int);
                if place < out.len() {
                    assert(rest[0] == out@[place as int]@);
                }
                let ready = ready_of(all.take(it.index() + 1));
                assert(ready.drop_last() == ready_of(all.take(it.index() as int)));
            }
            out.insert(place, issue);
            proof {
                assert(out.deep_view() =~= sorted.insert(place as int, issue@));
            }
        }
    }
    proof {
        assert(all.take(all.len() as int) == all);
    }
    out
}

/// Whether no issue of `issues` has an identifier that comes before that of
/// an issue before it.
pub open spec fn ascending_identifiers(issues: Seq<IssueView>) -> bool {
    forall|i: int, j: int|
        0 <= i < j < issues.len() ==> !text_lt(
            (#[trigger] issues[j]).identifier,
            (#[trigger] issues[i]).identifier,
        )
}

/// The place of an identifier is within the list; every issue before it
/// has an identifier that does not come after, and the issue at it has one
/// that does.
pub proof fn lemma_place_by_identifier(sorted: Seq<IssueView>, id: Seq<char>)
    ensures
        0 <= place_by_identifier(sorted, id) <= sorted.len(),
        forall|i: int|
            0 <= i < place_by_identifier(sorted, id) ==> !text_lt(
                id,
                (#[trigger] sorted[i]).identifier,
            ),
        place_by_identifier(sorted, id) < sorted.len() ==> text_lt(
            id,
            sorted[place_by_identifier(sorted, id)].identifier,
        ),
    decreases sorted.len(),
{
    if sorted.len() > 0 && !text_lt(id, sorted[0].identifier) {
        let rest = sorted.drop_first();
        lemma_place_by_identifier(rest, id);
        assert forall|i: int| 0 <= i < place_by_identifier(sorted, id) implies !text_lt(
            id,
            (#[trigger] sorted[i]).identifier,
        ) by {
            if i > 0 {
                assert(sorted[i] == rest[i - 1]);
            }
        }
        if place_by_identifier(sorted, id) < sorted.len() {
            assert(sorted[place_by_identifier(sorted, id)] == rest[place_by_identifier(rest, id)]);
        }
    }
}

/// Sorting by identifier gives a list in ascending order of identifier that
/// holds each issue as often as it was given.
pub proof fn law_sorted_by_identifier(issues: Seq<IssueView>)
    ensures
        ascending_identifiers(sorted_by_identifier(issues)),
        sorted_by_identifier(issues).to_multiset() == issues.to_multiset(),
    decreases issues.len(),
{
    if issues.len() > 0 {
        let before = issues.drop_last();
        let last = issues.last();
        let rest = sorted_by_identifier(before);
        law_sorted_by_identifier(before);
        let p = place_by_identifier(rest, last.identifier);
        lemma_place_by_identifier(rest, last.identifier);
        let out = sorted_by_identifier(issues);
        assert forall|i: int, j: int| 0 <= i < j < out.len() implies !text_lt(
            (#[trigger] out[j]).identifier,
            (#[trigger] out[i]).identifier,
        ) by {
            if j < p {
                assert(!text_lt(rest[j].identifier, rest[i].identifier));
            } else if j == p {
                assert(!text_lt(last.identifier, rest[i].identifier));
            } else if i < p {
                assert(!text_lt(rest[j - 1].identifier, rest[i].identifier));
            } else if i == p {
                if text_lt(rest[j - 1].identifier, last.identifier) {
                    crate::order::lemma_lt_transitive(
                        rest[j - 1].identifier,
                        last.identifier,
                        rest[p].identifier,
                    );
                    if j - 1 > p {
                        assert(!text_lt(rest[j - 1].identifier, rest[p].identifier));
                    } else {
                        crate::order::lemma_lt_irreflexive(rest[p].identifier);
                    }
                }
            } else {
                assert(!text_lt(rest[j - 1].identifier, rest[i - 1].identifier));
            }
        }
        assert(issues =~= before.push(last));
        vstd::seq_lib::to_multiset_build(before, last);
        vstd::seq_lib::to_multiset_insert(rest, p, last);
        assert(out.to_multiset() == issues.to_multiset());
    } else {
        assert(issues =~= Seq::<IssueView>::empty());
    }
}

} // verus!
