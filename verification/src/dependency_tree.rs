//! The tree of an issue's dependencies, and how it is drawn.

use crate::dependency_graph::{lemma_unmarked, unmarked};
use crate::error::{KanbusError, KanbusErrorView};
use crate::models::{DependencyLink, DependencyLinkView, IssueData, IssueView};
use crate::text::{chars_of, join, join_strings, owned, push_all, push_str, string_of};
use crate::text_map::TextMap;
use vstd::prelude::*;

verus! {

/// Dependency tree node.
#[derive(Debug)]
pub struct DependencyTreeNode {
    pub identifier: String,
    pub title: String,
    pub dependency_type: Option<String>,
    pub dependencies: Vec<DependencyTreeNode>,
}

/// Mathematical content of [`DependencyTreeNode`].
pub struct TreeView {
    pub identifier: Seq<char>,
    pub title: Seq<char>,
    pub dependency_type: Option<Seq<char>>,
    pub dependencies: Seq<TreeView>,
}

/// The tree that a node stands for.
pub open spec fn tree_view(node: DependencyTreeNode) -> TreeView
    decreases node,
{
    TreeView {
        identifier: node.identifier@,
        title: node.title@,
        dependency_type: match node.dependency_type {
            Some(kind) => Some(kind@),
            None => None,
        },
        dependencies: Seq::new(
            node.dependencies.len() as nat,
            |i: int|
                if 0 <= i < node.dependencies.len() {
                    tree_view(node.dependencies@[i])
                } else {
                    arbitrary()
                },
        ),
    }
}

impl View for DependencyTreeNode {
    type V = TreeView;

    open spec fn view(&self) -> TreeView {
        tree_view(*self)
    }
}

/// The line of a DOT graph for the edge from `from` to `to`.
pub open spec fn dot_edge(from: Seq<char>, to: Seq<char>) -> Seq<char> {
    "  \""@ + from + "\" -> \""@ + to + "\";"@
}

/// The edge lines of a tree: for each dependency in order, the edge to it
/// and then the edges below it.
pub open spec fn dot_edges(tree: TreeView) -> Seq<Seq<char>>
    decreases tree, tree.dependencies.len() + 1,
{
    dot_edges_upto(tree, tree.dependencies.len())
}

/// The edge lines for the first `n` dependencies of a tree.
pub open spec fn dot_edges_upto(tree: TreeView, n: nat) -> Seq<Seq<char>>
    decreases tree, n,
{
    if n == 0 || n > tree.dependencies.len() {
        Seq::empty()
    } else {
        let child = tree.dependencies[n - 1];
        dot_edges_upto(tree, (n - 1) as nat) + seq![dot_edge(tree.identifier, child.identifier)]
            + dot_edges(child)
    }
}

/// The tree as a DOT graph.
pub open spec fn dot_text(tree: TreeView) -> Seq<char> {
    join(seq!["digraph dependencies {"@] + dot_edges(tree) + seq!["}"@], seq!['\n'])
}

/// Appends the edge lines of `node`.
fn push_dot_edges(node: &DependencyTreeNode, edges: &mut Vec<String>)
    ensures
        final(edges).deep_view() == old(edges).deep_view() + dot_edges(node@),
    decreases node,
{
    let ghost start = edges.deep_view();
    let ghost tree = node@;
    let mut i: usize = 0;
    proof {
        assert(start + dot_edges_upto(tree, 0) == start);
    }
    while i < node.dependencies.len()
        invariant
            i <= node.dependencies.len(),
            tree == node@,
            edges.deep_view() == start + dot_edges_upto(tree, i as nat),
        decreases node.dependencies.len() - i,
    {
        let child = &node.dependencies[i];
        proof {
            assert(tree.dependencies[i as int] == child@);
        }
        let mut line = chars_of("  \"");
        push_str(&mut line, node.identifier.as_str());
        push_str(&mut line, "\" -> \"");
        push_str(&mut line, child.identifier.as_str());
        push_str(&mut line, "\";");
        let ghost before = edges.deep_view();
        let text = string_of(&line);
        edges.push(text);
        proof {
            assert(edges.deep_view() =~= before.push(text@));
        }
        let ghost middle = edges.deep_view();
        push_dot_edges(child, edges);
        proof {
            assert(edges.deep_view() == start + dot_edges_upto(tree, (i + 1) as nat)) by {
                assert(middle == start + dot_edges_upto(tree, i as nat) + seq![text@]);
                assert(start + dot_edges_upto(tree, i as nat) + seq![text@] + dot_edges(child@)
                    =~= start + (dot_edges_upto(tree, i as nat) + seq![text@] + dot_edges(child@)));
            }
        }
        i += 1;
    }
}

/// Draws the tree as a DOT graph.
pub fn render_dot(node: &DependencyTreeNode) -> (out: String)
    ensures
        out@ == dot_text(node@),
{
    let mut lines: Vec<String> = Vec::new();
    lines.push(owned("digraph dependencies {"));
    proof {
        assert(lines.deep_view() =~= seq!["digraph dependencies {"@]);
    }
    push_dot_edges(node, &mut lines);
    let ghost before = lines.deep_view();
    lines.push(owned("}"));
    proof {
        assert(lines.deep_view() =~= before + seq!["}"@]);
    }
    join_lines(&lines)
}

/// The lines joined by line feeds.
fn join_lines(lines: &Vec<String>) -> (out: String)
    ensures
        out@ == join(lines.deep_view(), seq!['\n']),
{
    proof {
        reveal_strlit("\n");
        assert("\n"@ =~= seq!['\n']);
    }
    join_strings(lines, "\n")
}

/// The number of nodes drawn as text unless the caller says otherwise.
pub const MAX_TREE_NODES: usize = 25;

/// Where drawing a tree as text stands: the lines so far, the number of nodes
/// drawn, and whether nodes had to be left out.
pub struct Drawing {
    pub lines: Seq<Seq<char>>,
    pub count: nat,
    pub truncated: bool,
}

/// The line for one node: the root stands alone, every other node behind its
/// prefix and a connector.
pub open spec fn ascii_line(tree: TreeView, prefix: Seq<char>, is_last: bool) -> Seq<char> {
    if prefix.len() == 0 {
        tree.identifier + " "@ + tree.title
    } else {
        prefix + (if is_last {
            "`-- "@
        } else {
            "|-- "@
        }) + tree.identifier + " "@ + tree.title
    }
}

/// The prefix for the nodes below a node.
pub open spec fn child_prefix(prefix: Seq<char>, is_last: bool) -> Seq<char> {
    prefix + (if is_last {
        "    "@
    } else {
        "|   "@
    })
}

/// The drawing after `tree` has been drawn with all below it, as far as the
/// limit of `max_nodes` allows.
pub open spec fn drawn(tree: TreeView, prefix: Seq<char>, is_last: bool, before: Drawing, max_nodes: nat) -> Drawing
    decreases tree, tree.dependencies.len() + 1,
{
    if before.count >= max_nodes {
        Drawing { truncated: true, ..before }
    } else {
        let with_node = Drawing {
            lines: before.lines.push(ascii_line(tree, prefix, is_last)),
            count: before.count + 1,
            ..before
        };
        drawn_upto(
            tree,
            child_prefix(prefix, is_last),
            tree.dependencies.len(),
            with_node,
            max_nodes,
        )
    }
}

/// The drawing after the first `n` dependencies of `tree` have been drawn.
pub open spec fn drawn_upto(tree: TreeView, prefix: Seq<char>, n: nat, before: Drawing, max_nodes: nat) -> Drawing
    decreases tree, n,
{
    if n == 0 || n > tree.dependencies.len() {
        before
    } else {
        drawn(
            tree.dependencies[n - 1],
            prefix,
            n == tree.dependencies.len(),
            drawn_upto(tree, prefix, (n - 1) as nat, before, max_nodes),
            max_nodes,
        )
    }
}

/// The tree as text: one line for each node, at most `max_nodes` of them,
/// and a closing line where nodes were left out.
pub open spec fn ascii_text(tree: TreeView, max_nodes: nat) -> Seq<char> {
    let drawing = drawn(
        tree,
        Seq::empty(),
        true,
        Drawing { lines: Seq::empty(), count: 0, truncated: false },
        max_nodes,
    );
    join(
        drawing.lines + (if drawing.truncated {
            seq!["additional nodes omitted"@]
        } else {
            Seq::empty()
        }),
        seq!['\n'],
    )
}

/// Draws `current` and all below it.
fn draw_node(
    current: &DependencyTreeNode,
    prefix: &Vec<char>,
    is_last: bool,
    lines: &mut Vec<String>,
    count: &mut usize,
    truncated: &mut bool,
    max_nodes: usize,
)
    ensures
        (Drawing {
            lines: final(lines).deep_view(),
            count: *final(count) as nat,
            truncated: *final(truncated),
        }) == drawn(
            current@,
            prefix@,
            is_last,
            Drawing {
                lines: old(lines).deep_view(),
                count: *old(count) as nat,
                truncated: *old(truncated),
            },
            max_nodes as nat,
        ),
    decreases current,
{
    if *count >= max_nodes {
        *truncated = true;
        return;
    }
    let ghost tree = current@;
    let mut line: Vec<char> = Vec::new();
    if prefix.len() > 0 {
        push_all(&mut line, prefix);
        push_str(
            &mut line,
            if is_last {
                "`-- "
            } else {
                "|-- "
            },
        );
    }
    push_str(&mut line, current.identifier.as_str());
    push_str(&mut line, " ");
    push_str(&mut line, current.title.as_str());
    let ghost before = lines.deep_view();
    let text = string_of(&line);
    lines.push(text);
    proof {
        assert(lines.deep_view() =~= before.push(text@));
        assert(text@ =~= ascii_line(tree, prefix@, is_last));
    }
    *count += 1;
    let mut below: Vec<char> = Vec::new();
    push_all(&mut below, prefix);
    push_str(
        &mut below,
        if is_last {
            "    "
        } else {
            "|   "
        },
    );
    proof {
        assert(below@ =~= child_prefix(prefix@, is_last));
    }
    let ghost with_node = Drawing {
        lines: lines.deep_view(),
        count: *count as nat,
        truncated: *truncated,
    };
    let mut i: usize = 0;
    while i < current.dependencies.len()
        invariant
            i <= current.dependencies.len(),
            tree == current@,
            below@ == child_prefix(prefix@, is_last),
            (Drawing {
                lines: lines.deep_view(),
                count: *count as nat,
                truncated: *truncated,
            }) == drawn_upto(tree, below@, i as nat, with_node, max_nodes as nat),
        decreases current.dependencies.len() - i,
    {
        let child = &current.dependencies[i];
        proof {
            assert(tree.dependencies[i as int] == child@);
        }
        draw_node(
            child,
            &below,
            i + 1 == current.dependencies.len(),
            lines,
            count,
            truncated,
            max_nodes,
        );
        i += 1;
    }
}

/// Draws the tree as text, with at most `max_nodes` nodes.
pub fn render_ascii(node: &DependencyTreeNode, max_nodes: usize) -> (out: String)
    ensures
        out@ == ascii_text(node@, max_nodes as nat),
{
    let mut lines: Vec<String> = Vec::new();
    let mut count: usize = 0;
    let mut truncated = false;
    let prefix: Vec<char> = Vec::new();
    proof {
        assert(lines.deep_view() =~= Seq::<Seq<char>>::empty());
    }
    draw_node(node, &prefix, true, &mut lines, &mut count, &mut truncated, max_nodes);
    if truncated {
        let ghost before = lines.deep_view();
        lines.push(owned("additional nodes omitted"));
        proof {
            assert(lines.deep_view() =~= before + seq!["additional nodes omitted"@]);
        }
    } else {
        proof {
            assert(lines.deep_view() + Seq::<Seq<char>>::empty() == lines.deep_view());
        }
    }
    join_lines(&lines)
}

/// The forms in which a tree can be drawn.
#[derive(Debug, Clone, Copy, PartialEq, Eq, Structural)]
pub enum TreeFormat {
    Json,
    Dot,
    Text,
}

/// The form that `name` asks for, if it names one.
pub open spec fn format_named(name: Seq<char>) -> Option<TreeFormat> {
    if name == "json"@ {
        Some(TreeFormat::Json)
    } else if name == "dot"@ {
        Some(TreeFormat::Dot)
    } else if name == "text"@ {
        Some(TreeFormat::Text)
    } else {
        None
    }
}

/// Reads the name of an output format.
pub fn parse_tree_format(name: &str) -> (out: Result<TreeFormat, crate::error::KanbusError>)
    ensures
        match format_named(name@) {
            Some(format) => out == Ok::<TreeFormat, crate::error::KanbusError>(format),
            None => out matches Err(e) && e@ == crate::error::KanbusErrorView::IssueOperation(
                "invalid format"@,
            ),
        },
{
    if crate::text::same_text(name, "json") {
        Ok(TreeFormat::Json)
    } else if crate::text::same_text(name, "dot") {
        Ok(TreeFormat::Dot)
    } else if crate::text::same_text(name, "text") {
        Ok(TreeFormat::Text)
    } else {
        Err(crate::error::KanbusError::IssueOperation(owned("invalid format")))
    }
}

/// Draws the tree in the asked form: `dot`, or `text` with at most
/// `max_nodes` nodes (25 where none is given). `None` is handed back for
/// `json`, which the caller writes with its own encoder.
pub fn render_dependency_tree(
    node: &DependencyTreeNode,
    output_format: &str,
    max_nodes: Option<usize>,
) -> (out: Result<Option<String>, crate::error::KanbusError>)
    ensures
        match format_named(output_format@) {
            Some(TreeFormat::Json) => out matches Ok(None),
            Some(TreeFormat::Dot) => out matches Ok(Some(text)) && text@ == dot_text(node@),
            Some(TreeFormat::Text) => out matches Ok(Some(text)) && text@ == ascii_text(
                node@,
                match max_nodes {
                    Some(limit) => limit as nat,
                    None => MAX_TREE_NODES as nat,
                },
            ),
            None => out matches Err(e) && e@ == crate::error::KanbusErrorView::IssueOperation(
                "invalid format"@,
            ),
        },
{
    match parse_tree_format(output_format) {
        Ok(TreeFormat::Json) => Ok(None),
        Ok(TreeFormat::Dot) => Ok(Some(render_dot(node))),
        Ok(TreeFormat::Text) => {
            let limit = match max_nodes {
                Some(limit) => limit,
                None => MAX_TREE_NODES,
            };
            Ok(Some(render_ascii(node, limit)))
        },
        Err(error) => Err(error),
    }
}

/// The issues of a project by identifier.
pub type IssueMap = Map<Seq<char>, IssueView>;

/// The issues that a map of issues holds, by identifier.
pub open spec fn issue_views(issues: TextMap<IssueData>) -> IssueMap {
    Map::new(|k: Seq<char>| issues@.dom().contains(k), |k: Seq<char>| issues@[k]@)
}

/// What building a node comes to: the node or the reason why there is none,
/// and the issues visited so far.
pub struct Built {
    pub tree: Result<TreeView, KanbusErrorView>,
    pub visited: Set<Seq<char>>,
}

/// What building the dependencies of a node comes to.
pub struct BuiltMany {
    pub trees: Result<Seq<TreeView>, KanbusErrorView>,
    pub visited: Set<Seq<char>>,
}

/// The error for a dependency on an issue that does not exist.
pub open spec fn missing_target_error(target: Seq<char>) -> KanbusErrorView {
    KanbusErrorView::IssueOperation("dependency target '"@ + target + "' does not exist"@)
}

/// The depth at which the dependencies of a node at `depth` stand. Without a
/// limit the depth is of no account and is not counted.
pub open spec fn next_depth(max_depth: Option<nat>, depth: nat) -> nat {
    match max_depth {
        Some(_) => depth + 1,
        None => depth,
    }
}

/// The node for the issue `id`, which is one of `keys`. An issue that was
/// visited before is drawn without its dependencies, and so is an issue at the
/// depth limit; every other issue is drawn with the nodes of its dependencies
/// in order.
pub open spec fn built_node(
    keys: Seq<Seq<char>>,
    issues: IssueMap,
    id: Seq<char>,
    max_depth: Option<nat>,
    depth: nat,
    visited: Set<Seq<char>>,
    kind: Option<Seq<char>>,
) -> Built
    decreases unmarked(keys, visited), 0nat, 0nat,
    when keys.contains(id)
{
    let issue = issues[id];
    let leaf = TreeView {
        identifier: issue.identifier,
        title: issue.title,
        dependency_type: kind,
        dependencies: Seq::empty(),
    };
    if visited.contains(id) {
        Built { tree: Ok(leaf), visited }
    } else if max_depth matches Some(limit) && depth >= limit {
        Built { tree: Ok(leaf), visited: visited.insert(id) }
    } else {
        proof {
            lemma_unmarked(keys, visited, visited.insert(id), id);
        }
        let below = built_links(
            keys,
            issues,
            issue.dependencies,
            issue.dependencies.len(),
            max_depth,
            next_depth(max_depth, depth),
            visited.insert(id),
        );
        match below.trees {
            Ok(trees) => Built {
                tree: Ok(TreeView { dependencies: trees, ..leaf }),
                visited: below.visited,
            },
            Err(error) => Built { tree: Err(error), visited: below.visited },
        }
    }
}

/// The node for one dependency: its target must be one of the issues.
pub open spec fn built_link(
    keys: Seq<Seq<char>>,
    issues: IssueMap,
    link: DependencyLinkView,
    max_depth: Option<nat>,
    depth: nat,
    visited: Set<Seq<char>>,
) -> Built
    decreases unmarked(keys, visited), 1nat, 0nat,
{
    if issues.dom().contains(link.target) {
        built_node(keys, issues, link.target, max_depth, depth, visited, Some(link.dependency_type))
    } else {
        Built { tree: Err(missing_target_error(link.target)), visited }
    }
}

/// The nodes for the first `n` of `links`, in order; the first dependency
/// that cannot be built ends the building.
pub open spec fn built_links(
    keys: Seq<Seq<char>>,
    issues: IssueMap,
    links: Seq<DependencyLinkView>,
    n: nat,
    max_depth: Option<nat>,
    depth: nat,
    visited: Set<Seq<char>>,
) -> BuiltMany
    decreases unmarked(keys, visited), 2nat, n,
{
    if n == 0 || n > links.len() {
        BuiltMany { trees: Ok(Seq::empty()), visited }
    } else {
        let before = built_links(keys, issues, links, (n - 1) as nat, max_depth, depth, visited);
        match before.trees {
            Err(error) => before,
            Ok(trees) => {
                proof {
                    lemma_unmarked(keys, visited, visited.union(before.visited), Seq::empty());
                }
                let next = built_link(
                    keys,
                    issues,
                    links[n - 1],
                    max_depth,
                    depth,
                    visited.union(before.visited),
                );
                match next.tree {
                    Ok(tree) => BuiltMany { trees: Ok(trees.push(tree)), visited: next.visited },
                    Err(error) => BuiltMany { trees: Err(error), visited: next.visited },
                }
            },
        }
    }
}

/// Once a dependency could not be built, building further ones changes
/// nothing.
pub proof fn lemma_failure_stays(
    keys: Seq<Seq<char>>,
    issues: IssueMap,
    links: Seq<DependencyLinkView>,
    n: nat,
    m: nat,
    max_depth: Option<nat>,
    depth: nat,
    visited: Set<Seq<char>>,
)
    requires
        n <= m <= links.len(),
        built_links(keys, issues, links, n, max_depth, depth, visited).trees is Err,
    ensures
        built_links(keys, issues, links, m, max_depth, depth, visited) == built_links(
            keys,
            issues,
            links,
            n,
            max_depth,
            depth,
            visited,
        ),
    decreases m - n,
{
    if n < m {
        lemma_failure_stays(keys, issues, links, n, (m - 1) as nat, max_depth, depth, visited);
    }
}

/// Mathematical content of a result that holds a tree.
pub open spec fn tree_result(out: Result<DependencyTreeNode, KanbusError>) -> Result<
    TreeView,
    KanbusErrorView,
> {
    match out {
        Ok(node) => Ok(node@),
        Err(error) => Err(error@),
    }
}

/// The depth limit as a number of the mathematical kind.
pub open spec fn limit_of(max_depth: Option<usize>) -> Option<nat> {
    match max_depth {
        Some(limit) => Some(limit as nat),
        None => None,
    }
}

/// The text of an optional string.
pub open spec fn kind_of(kind: Option<String>) -> Option<Seq<char>> {
    match kind {
        Some(text) => Some(text@),
        None => None,
    }
}

/// The views of a run of nodes.
pub open spec fn tree_views(nodes: Seq<DependencyTreeNode>) -> Seq<TreeView> {
    Seq::new(nodes.len(), |i: int| nodes[i]@)
}

/// Builds the node for the issue stored under `key`.
fn build_node(
    key: &str,
    issues: &TextMap<IssueData>,
    max_depth: Option<usize>,
    depth: usize,
    visited: &mut TextMap<()>,
    dependency_type: Option<String>,
) -> (out: Result<DependencyTreeNode, KanbusError>)
    requires
        issues.has(key@),
    ensures
        tree_result(out) == built_node(
            issues.keys(),
            issue_views(*issues),
            key@,
            limit_of(max_depth),
            depth as nat,
            old(visited)@.dom(),
            kind_of(dependency_type),
        ).tree,
        final(visited)@.dom() == built_node(
            issues.keys(),
            issue_views(*issues),
            key@,
            limit_of(max_depth),
            depth as nat,
            old(visited)@.dom(),
            kind_of(dependency_type),
        ).visited,
        forall|k: Seq<char>| old(visited)@.dom().contains(k) ==> final(visited)@.dom().contains(k),
    decreases unmarked(issues.keys(), old(visited)@.dom()), 0nat,
{
    let ghost keys = issues.keys();
    let ghost views = issue_views(*issues);
    let ghost entry = visited@.dom();
    let issue = match issues.get(key) {
        Some(issue) => issue,
        None => {
            return Err(KanbusError::IssueOperation(owned("not found")));
        },
    };
    proof {
        assert(views[key@] == issue@);
    }
    let (_, seen) = visited.locate(key);
    if seen {
        let children: Vec<DependencyTreeNode> = Vec::new();
        let node = DependencyTreeNode {
            identifier: issue.identifier.clone(),
            title: issue.title.clone(),
            dependency_type,
            dependencies: children,
        };
        proof {
            assert(node@.dependencies =~= Seq::<TreeView>::empty());
            assert(entry.contains(key@));
        }
        return Ok(node);
    }
    visited.insert(owned(key), ());
    let ghost seen_now = visited@.dom();
    proof {
        assert(!entry.contains(key@));
        assert(seen_now =~= entry.insert(key@));
        lemma_unmarked(keys, entry, seen_now, key@);
    }
    let limited = match max_depth {
        Some(limit) => depth >= limit,
        None => false,
    };
    let mut children: Vec<DependencyTreeNode> = Vec::new();
    if !limited {
        let below: usize = match max_depth {
            Some(_) => depth + 1,
            None => depth,
        };
        let ghost links = issue@.dependencies;
        let mut i: usize = 0;
        proof {
            assert(tree_views(children@) =~= Seq::<TreeView>::empty());
        }
        while i < issue.dependencies.len()
            invariant
                i <= issue.dependencies.len(),
                keys == issues.keys(),
                keys.contains(key@),
                views == issue_views(*issues),
                views[key@] == issue@,
                links == issue@.dependencies,
                entry == old(visited)@.dom(),
                !entry.contains(key@),
                seen_now == entry.insert(key@),
                !(limit_of(max_depth) matches Some(limit) && depth >= limit),
                below as nat == next_depth(limit_of(max_depth), depth as nat),
                forall|k: Seq<char>| seen_now.contains(k) ==> visited@.dom().contains(k),
                unmarked(keys, seen_now) < unmarked(keys, entry),
                built_links(
                    keys,
                    views,
                    links,
                    i as nat,
                    limit_of(max_depth),
                    below as nat,
                    seen_now,
                ) == (BuiltMany {
                    trees: Ok::<Seq<TreeView>, KanbusErrorView>(tree_views(children@)),
                    visited: visited@.dom(),
                }),
            decreases issue.dependencies.len() - i,
        {
            let ghost before = visited@.dom();
            proof {
                assert(links[i as int] == issue.dependencies@[i as int]@);
                assert(seen_now.union(before) =~= before);
                lemma_unmarked(keys, seen_now, before, key@);
            }
            match build_dependency(&issue.dependencies[i], issues, max_depth, below, visited) {
                Ok(child) => {
                    let ghost so_far = tree_views(children@);
                    children.push(child);
                    proof {
                        assert(tree_views(children@) =~= so_far.push(child@));
                    }
                },
                Err(error) => {
                    proof {
                        lemma_failure_stays(
                            keys,
                            views,
                            links,
                            (i + 1) as nat,
                            links.len(),
                            limit_of(max_depth),
                            below as nat,
                            seen_now,
                        );
                    }
                    return Err(error);
                },
            }
            i += 1;
        }
        proof {
            assert(links.len() == issue.dependencies.len());
            assert(built_links(
                keys,
                views,
                issue@.dependencies,
                issue@.dependencies.len(),
                limit_of(max_depth),
                next_depth(limit_of(max_depth), depth as nat),
                seen_now,
            ) == (BuiltMany {
                trees: Ok::<Seq<TreeView>, KanbusErrorView>(tree_views(children@)),
                visited: visited@.dom(),
            }));
        }
    } else {
        proof {
            assert(tree_views(children@) =~= Seq::<TreeView>::empty());
        }
    }
    let node = DependencyTreeNode {
        identifier: issue.identifier.clone(),
        title: issue.title.clone(),
        dependency_type,
        dependencies: children,
    };
    proof {
        assert(node@.dependencies =~= tree_views(children@));
        assert forall|k: Seq<char>| entry.contains(k) implies visited@.dom().contains(k) by {
            assert(seen_now.contains(k));
        }
    }
    Ok(node)
}

/// Builds the node for one dependency.
fn build_dependency(
    dependency: &DependencyLink,
    issues: &TextMap<IssueData>,
    max_depth: Option<usize>,
    depth: usize,
    visited: &mut TextMap<()>,
) -> (out: Result<DependencyTreeNode, KanbusError>)
    ensures
        tree_result(out) == built_link(
            issues.keys(),
            issue_views(*issues),
            dependency@,
            limit_of(max_depth),
            depth as nat,
            old(visited)@.dom(),
        ).tree,
        final(visited)@.dom() == built_link(
            issues.keys(),
            issue_views(*issues),
            dependency@,
            limit_of(max_depth),
            depth as nat,
            old(visited)@.dom(),
        ).visited,
        forall|k: Seq<char>| old(visited)@.dom().contains(k) ==> final(visited)@.dom().contains(k),
    decreases unmarked(issues.keys(), old(visited)@.dom()), 1nat,
{
    let (_, known) = issues.locate(dependency.target.as_str());
    if !known {
        let mut message = chars_of("dependency target '");
        push_str(&mut message, dependency.target.as_str());
        push_str(&mut message, "' does not exist");
        return Err(KanbusError::IssueOperation(string_of(&message)));
    }
    build_node(
        dependency.target.as_str(),
        issues,
        max_depth,
        depth,
        visited,
        Some(dependency.dependency_type.clone()),
    )
}

/// The issues by identifier; of two issues with one identifier the later one
/// counts.
pub open spec fn by_identifier(issues: Seq<IssueView>) -> IssueMap
    decreases issues.len(),
{
    if issues.len() == 0 {
        Map::empty()
    } else {
        by_identifier(issues.drop_last()).insert(issues.last().identifier, issues.last())
    }
}

/// Puts issues into a map by identifier.
pub fn load_issues(issues: Vec<IssueData>) -> (out: TextMap<IssueData>)
    ensures
        issue_views(out) == by_identifier(issues.deep_view()),
{
    broadcast use vstd::std_specs::vec::axiom_spec_into_iter;

    let mut out: TextMap<IssueData> = TextMap::new();
    let ghost all = issues.deep_view();
    let ghost raw = issues@;
    proof {
        assert(all.take(0) == Seq::<IssueView>::empty());
        assert(issue_views(out) =~= Map::<Seq<char>, IssueView>::empty());
    }
    for issue in it: issues.into_iter()
        invariant
            it.seq() == raw,
            all.len() == raw.len(),
            forall|k: int| 0 <= k < raw.len() ==> #[trigger] all[k] == raw[k]@,
            issue_views(out) == by_identifier(all.take(it.index() as int)),
    {
        proof {
            let next = all.take(it.index() + 1);
            assert(next.drop_last() == all.take(it.index() as int));
            assert(next.last() == issue@);
        }
        let ghost before = issue_views(out);
        let ghost view = issue@;
        out.insert(issue.identifier.clone(), issue);
        proof {
            assert(issue_views(out) =~= before.insert(view.identifier, view));
        }
    }
    proof {
        assert(all.take(all.len() as int) == all);
    }
    out
}

/// Builds the dependency tree of the issue `identifier` among `issues`,
/// down to `max_depth` levels where a limit is given. The tree is the one that
/// `built_node` describes for the issues by identifier, starting with nothing
/// visited; an identifier that no issue has is reported as not found.
pub fn build_dependency_tree(
    issues: &TextMap<IssueData>,
    identifier: &str,
    max_depth: Option<usize>,
) -> (out: Result<DependencyTreeNode, KanbusError>)
    ensures
        tree_result(out) == (if issues.has(identifier@) {
            built_node(
                issues.keys(),
                issue_views(*issues),
                identifier@,
                limit_of(max_depth),
                0,
                Set::empty(),
                None,
            ).tree
        } else {
            Err(KanbusErrorView::IssueOperation("not found"@))
        }),
{
    let (_, known) = issues.locate(identifier);
    if !known {
        return Err(KanbusError::IssueOperation(owned("not found")));
    }
    let mut visited: TextMap<()> = TextMap::new();
    proof {
        assert(visited@.dom() =~= Set::<Seq<char>>::empty());
    }
    build_node(identifier, issues, max_depth, 0, &mut visited, None)
}

} // verus!
