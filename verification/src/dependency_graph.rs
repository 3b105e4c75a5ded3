//! The graph of blocking dependencies and the search for cycles in it.

use crate::text::owned;
use crate::text_map::TextMap;
use vstd::prelude::*;

verus! {

/// A directed graph over issue identifiers: from each issue to the issues it
/// waits for.
pub struct DependencyGraph {
    pub edges: TextMap<Vec<String>>,
}

/// A graph as a map from each node that has successors to its successors.
pub type Successors = Map<Seq<char>, Seq<Seq<char>>>;

impl View for DependencyGraph {
    type V = Successors;

    open spec fn view(&self) -> Successors {
        Map::new(
            |k: Seq<char>| self.edges@.dom().contains(k),
            |k: Seq<char>| self.edges@[k].deep_view(),
        )
    }
}

/// Whether the graph has an edge from `a` to `b`.
pub open spec fn edge(g: Successors, a: Seq<char>, b: Seq<char>) -> bool {
    g.dom().contains(a) && g[a].contains(b)
}

/// Whether each node of `walk` has an edge to the next one.
pub open spec fn is_walk(g: Successors, walk: Seq<Seq<char>>) -> bool {
    forall|i: int| 0 <= i < walk.len() - 1 ==> edge(g, #[trigger] walk[i], walk[i + 1])
}

/// Whether `b` can be reached from `a` along edges; every node reaches
/// itself.
pub open spec fn reaches(g: Successors, a: Seq<char>, b: Seq<char>) -> bool {
    exists|walk: Seq<Seq<char>>|
        #![trigger is_walk(g, walk)]
        walk.len() >= 1 && is_walk(g, walk) && walk[0] == a && walk.last() == b
}

/// Whether `v` lies on a cycle: it reaches itself along at least one edge.
pub open spec fn on_cycle(g: Successors, v: Seq<char>) -> bool {
    exists|walk: Seq<Seq<char>>|
        #![trigger is_walk(g, walk)]
        walk.len() >= 2 && is_walk(g, walk) && walk[0] == v && walk.last() == v
}

/// Whether a cycle can be reached from `start`.
pub open spec fn cycle_from(g: Successors, start: Seq<char>) -> bool {
    exists|v: Seq<char>| #![trigger on_cycle(g, v)] reaches(g, start, v) && on_cycle(g, v)
}

/// The ghost record of a search: the order in which nodes were finished.
pub struct Progress {
    pub finish: Map<Seq<char>, nat>,
    pub clock: nat,
}

/// The marks of a search: a node is marked when the search has entered it,
/// with `true` while it is still being searched and `false` once it is
/// finished.
pub type Marks = Map<Seq<char>, bool>;

/// Whether the search through `node` is still under way.
pub open spec fn is_open(marks: Marks, node: Seq<char>) -> bool {
    marks.dom().contains(node) && marks[node]
}

/// Whether the search through `node` is finished.
pub open spec fn is_finished(marks: Marks, node: Seq<char>) -> bool {
    marks.dom().contains(node) && !marks[node]
}

/// What holds between two calls of the search: the open nodes are those of
/// the trail, which is a walk; the finished nodes are those with a finishing
/// time; and every edge out of a finished node leads to a node that was
/// finished earlier.
pub open spec fn consistent(g: Successors, marks: Marks, trail: Seq<Seq<char>>, p: Progress) -> bool {
    &&& forall|k: Seq<char>| #[trigger] is_open(marks, k) <==> trail.contains(k)
    &&& is_walk(g, trail)
    &&& forall|k: Seq<char>| #[trigger] p.finish.dom().contains(k) <==> is_finished(marks, k)
    &&& forall|k: Seq<char>| #[trigger] p.finish.dom().contains(k) ==> p.finish[k] < p.clock
    &&& forall|b: Seq<char>, c: Seq<char>|
        p.finish.dom().contains(b) && #[trigger] edge(g, b, c) ==> p.finish.dom().contains(c)
            && p.finish[c] < p.finish[b]
}

/// Whether `after` holds every mark of `before` unchanged.
pub open spec fn keeps(before: Marks, after: Marks) -> bool {
    forall|k: Seq<char>| #[trigger]
        before.dom().contains(k) ==> after.dom().contains(k) && after[k] == before[k]
}

/// The number of `keys` that are not marked.
pub open spec fn unmarked(keys: Seq<Seq<char>>, marked: Set<Seq<char>>) -> nat
    decreases keys.len(),
{
    if keys.len() == 0 {
        0
    } else {
        unmarked(keys.drop_last(), marked) + (if marked.contains(keys.last()) {
            0nat
        } else {
            1nat
        })
    }
}

/// Marking more nodes never raises the count of unmarked keys, and marking
/// a key that was unmarked lowers it.
pub proof fn lemma_unmarked(
    keys: Seq<Seq<char>>,
    fewer: Set<Seq<char>>,
    more: Set<Seq<char>>,
    fresh: Seq<char>,
)
    requires
        forall|k: Seq<char>| fewer.contains(k) ==> more.contains(k),
    ensures
        unmarked(keys, more) <= unmarked(keys, fewer),
        keys.contains(fresh) && !fewer.contains(fresh) && more.contains(fresh) ==> unmarked(
            keys,
            more,
        ) < unmarked(keys, fewer),
    decreases keys.len(),
{
    if keys.len() > 0 {
        let rest = keys.drop_last();
        lemma_unmarked(rest, fewer, more, fresh);
        if keys.contains(fresh) && keys.last() != fresh {
            let i = keys.index_of(fresh);
            assert(rest[i] == fresh);
        }
    }
}

/// The node from which the search set out: the first of the trail, or the
/// node itself where the trail is empty.
pub open spec fn origin(trail: Seq<Seq<char>>, node: Seq<char>) -> Seq<char> {
    if trail.len() > 0 {
        trail[0]
    } else {
        node
    }
}

/// An edge from the end of the trail back into the trail closes a cycle that
/// the trail's first node reaches.
proof fn lemma_back_edge(g: Successors, trail: Seq<Seq<char>>, node: Seq<char>)
    requires
        is_walk(g, trail),
        trail.contains(node),
        edge(g, trail.last(), node),
    ensures
        cycle_from(g, trail[0]),
{
    let at = trail.index_of(node);
    let lead = trail.take(at + 1);
    assert forall|i: int| 0 <= i < lead.len() - 1 implies edge(g, #[trigger] lead[i], lead[i + 1]) by {
        assert(lead[i] == trail[i]);
        assert(lead[i + 1] == trail[i + 1]);
    }
    assert(is_walk(g, lead));
    assert(lead[0] == trail[0] && lead.last() == node);
    assert(reaches(g, trail[0], node));
    let round = trail.skip(at).push(node);
    assert forall|i: int| 0 <= i < round.len() - 1 implies edge(
        g,
        #[trigger] round[i],
        round[i + 1],
    ) by {
        assert(round[i] == trail[at + i]);
        if i + 1 < round.len() - 1 {
            assert(round[i + 1] == trail[at + i + 1]);
        } else {
            assert(round[i + 1] == node);
            assert(trail[at + i] == trail.last());
        }
    }
    assert(is_walk(g, round));
    assert(round.len() >= 2 && round[0] == node && round.last() == node);
    assert(on_cycle(g, node));
}

/// A walk that starts at a finished node stays among finished nodes, and a
/// walk of at least one edge ends at a node that was finished earlier.
proof fn lemma_walk_descends(g: Successors, marks: Marks, p: Progress, walk: Seq<Seq<char>>)
    requires
        consistent(g, marks, Seq::empty(), p),
        walk.len() >= 1,
        is_walk(g, walk),
        p.finish.dom().contains(walk[0]),
    ensures
        p.finish.dom().contains(walk.last()),
        walk.len() >= 2 ==> p.finish[walk.last()] < p.finish[walk[0]],
        walk.len() == 1 ==> walk.last() == walk[0],
    decreases walk.len(),
{
    if walk.len() >= 2 {
        let rest = walk.drop_last();
        assert forall|i: int| 0 <= i < rest.len() - 1 implies edge(g, #[trigger] rest[i], rest[i + 1]) by {
            assert(rest[i] == walk[i]);
            assert(rest[i + 1] == walk[i + 1]);
        }
        lemma_walk_descends(g, marks, p, rest);
        assert(rest.last() == walk[walk.len() - 2]);
        assert(edge(g, walk[walk.len() - 2], walk[walk.len() - 2 + 1]));
    }
}

/// Once the search from `start` has finished without an open node left, no
/// cycle can be reached from `start`.
proof fn lemma_no_cycle(g: Successors, marks: Marks, p: Progress, start: Seq<char>)
    requires
        consistent(g, marks, Seq::empty(), p),
        is_finished(marks, start),
    ensures
        !cycle_from(g, start),
{
    if cycle_from(g, start) {
        let v = choose|v: Seq<char>| #![trigger on_cycle(g, v)] reaches(g, start, v) && on_cycle(g, v);
        let to = choose|walk: Seq<Seq<char>>|
            #![trigger is_walk(g, walk)]
            walk.len() >= 1 && is_walk(g, walk) && walk[0] == start && walk.last() == v;
        lemma_walk_descends(g, marks, p, to);
        let round = choose|walk: Seq<Seq<char>>|
            #![trigger is_walk(g, walk)]
            walk.len() >= 2 && is_walk(g, walk) && walk[0] == v && walk.last() == v;
        lemma_walk_descends(g, marks, p, round);
    }
}

/// Searches the graph from `node`, depth first. `marks` holds the nodes
/// entered before; the ghost `trail` holds the open ones in the order in which
/// they were entered.
fn visit(
    node: &str,
    graph: &DependencyGraph,
    marks: &mut TextMap<bool>,
    Ghost(trail): Ghost<Seq<Seq<char>>>,
    Ghost(progress): Ghost<Progress>,
) -> (out: (bool, Ghost<Progress>))
    requires
        consistent(graph@, old(marks)@, trail, progress),
        trail.len() > 0 ==> edge(graph@, trail.last(), node@),
    ensures
        out.0 ==> cycle_from(graph@, origin(trail, node@)),
        !out.0 ==> consistent(graph@, final(marks)@, trail, out.1@) && keeps(
            old(marks)@,
            final(marks)@,
        ) && is_finished(final(marks)@, node@),
    decreases unmarked(graph.edges.keys(), old(marks)@.dom()),
{
    let ghost g = graph@;
    match marks.get(node) {
        Some(open) => {
            if *open {
                proof {
                    assert(is_open(marks@, node@));
                    lemma_back_edge(g, trail, node@);
                }
                return (true, Ghost(progress));
            } else {
                return (false, Ghost(progress));
            }
        },
        None => {},
    }
    marks.insert(owned(node), true);
    let ghost entered = marks@;
    let ghost longer = trail.push(node@);
    let ghost mut current = progress;
    proof {
        assert forall|k: Seq<char>| #[trigger] is_open(entered, k) <==> longer.contains(k) by {
            if trail.contains(k) {
                let i = trail.index_of(k);
                assert(longer[i] == k);
                assert(is_open(old(marks)@, k));
            }
            if longer.contains(k) && k != node@ {
                let i = longer.index_of(k);
                assert(trail[i] == k);
            }
            if is_open(entered, k) && k != node@ {
                assert(is_open(old(marks)@, k));
                let i = trail.index_of(k);
                assert(longer[i] == k);
            }
            assert(longer[trail.len() as int] == node@);
            assert(is_open(entered, node@));
        }
        assert forall|i: int| 0 <= i < longer.len() - 1 implies edge(
            g,
            #[trigger] longer[i],
            longer[i + 1],
        ) by {
            assert(longer[i] == trail[i]);
            if i + 1 < trail.len() {
                assert(longer[i + 1] == trail[i + 1]);
            } else {
                assert(trail[i] == trail.last());
            }
        }
        assert forall|k: Seq<char>| #[trigger]
            current.finish.dom().contains(k) <==> is_finished(entered, k) by {
            assert(current.finish.dom().contains(k) <==> is_finished(old(marks)@, k));
        }
        assert(consistent(g, entered, longer, current));
    }
    match graph.edges.get(node) {
        Some(successors) => {
            proof {
                assert(graph.edges.keys().contains(node@));
                lemma_unmarked(graph.edges.keys(), old(marks)@.dom(), entered.dom(), node@);
            }
            let mut i: usize = 0;
            while i < successors.len()
                invariant
                    i <= successors.len(),
                    g == graph@,
                    g.dom().contains(node@),
                    g[node@] == successors.deep_view(),
                    longer == trail.push(node@),
                    consistent(g, marks@, longer, current),
                    keeps(entered, marks@),
                    unmarked(graph.edges.keys(), marks@.dom()) < unmarked(
                        graph.edges.keys(),
                        old(marks)@.dom(),
                    ),
                    forall|j: int|
                        0 <= j < i ==> is_finished(marks@, #[trigger] successors.deep_view()[j]),
                decreases successors.len() - i,
            {
                let ghost before = marks@;
                proof {
                    assert(successors.deep_view()[i as int] == successors@[i as int]@);
                    assert(g[node@].contains(successors@[i as int]@));
                    assert(longer.last() == node@);
                }
                let (found, Ghost(next)) = visit(
                    successors[i].as_str(),
                    graph,
                    marks,
                    Ghost(longer),
                    Ghost(current),
                );
                if found {
                    proof {
                        assert(origin(longer, successors@[i as int]@) == origin(trail, node@));
                    }
                    return (true, Ghost(next));
                }
                proof {
                    current = next;
                    lemma_unmarked(graph.edges.keys(), before.dom(), marks@.dom(), node@);
                    assert forall|j: int| 0 <= j < i + 1 implies is_finished(
                        marks@,
                        #[trigger] successors.deep_view()[j],
                    ) by {
                        if j < i {
                            assert(is_finished(before, successors.deep_view()[j]));
                        }
                    }
                }
                i += 1;
            }
        },
        None => {
            proof {
                assert(!g.dom().contains(node@));
            }
        },
    }
    let ghost searched = marks@;
    marks.insert(owned(node), false);
    proof {
        let done = Progress { finish: current.finish.insert(node@, current.clock), clock: current.clock + 1 };
        assert(is_open(searched, node@)) by {
            assert(is_open(entered, node@));
        }
        assert forall|k: Seq<char>| #[trigger] is_open(marks@, k) <==> trail.contains(k) by {
            if trail.contains(k) {
                let at = trail.index_of(k);
                assert(longer[at] == k);
                assert(is_open(old(marks)@, k));
                assert(k != node@);
                assert(is_open(searched, k));
            }
            if is_open(marks@, k) {
                assert(is_open(searched, k));
                assert(longer.contains(k));
                let at = longer.index_of(k);
                assert(trail[at] == k);
            }
        }
        assert forall|k: Seq<char>| #[trigger]
            done.finish.dom().contains(k) <==> is_finished(marks@, k) by {
            assert(current.finish.dom().contains(k) <==> is_finished(searched, k));
        }
        assert forall|b: Seq<char>, c: Seq<char>|
            done.finish.dom().contains(b) && #[trigger] edge(g, b, c) implies done.finish.dom().contains(
            c,
        ) && done.finish[c] < done.finish[b] by {
            if b == node@ {
                let at = g[node@].index_of(c);
                assert(is_finished(searched, c));
                assert(current.finish.dom().contains(c));
                assert(c != node@);
            } else {
                assert(current.finish.dom().contains(b));
                assert(current.finish.dom().contains(c));
                assert(is_finished(searched, c));
                assert(c != node@);
            }
        }
        assert forall|i: int| 0 <= i < trail.len() - 1 implies edge(g, #[trigger] trail[i], trail[i + 1]) by {
            assert(longer[i] == trail[i]);
            assert(longer[i + 1] == trail[i + 1]);
        }
        assert forall|k: Seq<char>| #[trigger] old(marks)@.dom().contains(k) implies marks@.dom().contains(
            k,
        ) && marks@[k] == old(marks)@[k] by {
            assert(entered.dom().contains(k));
            assert(searched.dom().contains(k));
        }
        current = done;
    }
    (false, Ghost(current))
}

/// Whether a cycle can be reached from `start` in `graph`.
pub fn detect_cycle(graph: &DependencyGraph, start: &str) -> (out: bool)
    ensures
        out == cycle_from(graph@, start@),
{
    let mut marks: TextMap<bool> = TextMap::new();
    let ghost nothing = Progress { finish: Map::empty(), clock: 0 };
    let ghost trail = Seq::<Seq<char>>::empty();
    let (found, Ghost(progress)) = visit(start, graph, &mut marks, Ghost(trail), Ghost(nothing));
    proof {
        if !found {
            lemma_no_cycle(graph@, marks@, progress, start@);
        }
    }
    found
}

} // verus!
