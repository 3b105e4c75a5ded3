use kanbus::dependency_tree::{
    build_dependency_tree, load_issues, parse_tree_format, render_ascii, render_dependency_tree,
    render_dot, DependencyTreeNode, TreeFormat, MAX_TREE_NODES,
};
use kanbus::models::{DependencyLink, IssueData, Timestamp};

fn issue(identifier: &str, title: &str, dependencies: &[(&str, &str)]) -> IssueData {
    let stamp = Timestamp { seconds: 0, nanos: 0 };
    IssueData {
        identifier: identifier.to_string(),
        title: title.to_string(),
        description: String::new(),
        issue_type: "task".to_string(),
        status: "open".to_string(),
        priority: 2,
        assignee: None,
        creator: None,
        parent: None,
        labels: Vec::new(),
        dependencies: dependencies
            .iter()
            .map(|(target, kind)| DependencyLink {
                target: target.to_string(),
                dependency_type: kind.to_string(),
            })
            .collect(),
        comments: Vec::new(),
        created_at: stamp,
        updated_at: stamp,
        closed_at: None,
        custom: Vec::new(),
    }
}

fn node(identifier: &str, title: &str, dependencies: Vec<DependencyTreeNode>) -> DependencyTreeNode {
    DependencyTreeNode {
        identifier: identifier.to_string(),
        title: title.to_string(),
        dependency_type: None,
        dependencies,
    }
}

fn project() -> Vec<IssueData> {
    vec![
        issue("tsk-a", "Alpha", &[("tsk-b", "blocked-by"), ("tsk-c", "relates-to")]),
        issue("tsk-b", "Beta", &[("tsk-d", "blocked-by")]),
        issue("tsk-c", "Gamma", &[("tsk-d", "blocked-by"), ("tsk-a", "relates-to")]),
        issue("tsk-d", "Delta", &[]),
    ]
}

fn shape(tree: &DependencyTreeNode) -> String {
    let below: Vec<String> = tree.dependencies.iter().map(shape).collect();
    let kind = tree.dependency_type.clone().unwrap_or_default();
    format!("{}[{}]({})", tree.identifier, kind, below.join(","))
}

#[test]
fn tree_follows_dependencies_and_draws_visited_issues_bare() {
    let issues = load_issues(project());
    let tree = build_dependency_tree(&issues, "tsk-a", None).unwrap();
    assert_eq!(
        shape(&tree),
        "tsk-a[](tsk-b[blocked-by](tsk-d[blocked-by]()),tsk-c[relates-to](tsk-d[blocked-by](),tsk-a[relates-to]()))"
    );
    assert_eq!(tree.title, "Alpha");
    assert_eq!(tree.dependencies[0].title, "Beta");
}

#[test]
fn tree_stops_at_the_depth_limit() {
    let issues = load_issues(project());
    assert_eq!(shape(&build_dependency_tree(&issues, "tsk-a", Some(0)).unwrap()), "tsk-a[]()");
    assert_eq!(
        shape(&build_dependency_tree(&issues, "tsk-a", Some(1)).unwrap()),
        "tsk-a[](tsk-b[blocked-by](),tsk-c[relates-to]())"
    );
    assert_eq!(
        shape(&build_dependency_tree(&issues, "tsk-a", Some(2)).unwrap()),
        "tsk-a[](tsk-b[blocked-by](tsk-d[blocked-by]()),tsk-c[relates-to](tsk-d[blocked-by](),tsk-a[relates-to]()))"
    );
}

#[test]
fn tree_needs_its_root_and_its_targets() {
    let issues = load_issues(project());
    assert_eq!(build_dependency_tree(&issues, "tsk-x", None).unwrap_err().to_string(), "not found");
    let broken = load_issues(vec![issue("tsk-a", "Alpha", &[("tsk-gone", "blocked-by")])]);
    assert_eq!(
        build_dependency_tree(&broken, "tsk-a", None).unwrap_err().to_string(),
        "dependency target 'tsk-gone' does not exist"
    );
    // Below the depth limit nothing is looked up.
    assert!(build_dependency_tree(&broken, "tsk-a", Some(0)).is_ok());
}

#[test]
fn issues_are_held_by_identifier() {
    let issues = load_issues(vec![issue("tsk-a", "First", &[]), issue("tsk-a", "Second", &[])]);
    assert_eq!(issues.len(), 1);
    assert_eq!(issues.get("tsk-a").unwrap().title, "Second");
}

#[test]
fn dot_lists_every_edge_parent_first() {
    let tree = node(
        "a",
        "A",
        vec![node("b", "B", vec![node("d", "D", Vec::new())]), node("c", "C", Vec::new())],
    );
    assert_eq!(
        render_dot(&tree),
        "digraph dependencies {\n  \"a\" -> \"b\";\n  \"b\" -> \"d\";\n  \"a\" -> \"c\";\n}"
    );
    assert_eq!(render_dot(&node("a", "A", Vec::new())), "digraph dependencies {\n}");
}

#[test]
fn text_draws_connectors_and_prefixes() {
    let tree = node(
        "a",
        "A",
        vec![
            node("b", "B", vec![node("d", "D", Vec::new()), node("e", "E", Vec::new())]),
            node("c", "C", vec![node("f", "F", Vec::new())]),
        ],
    );
    assert_eq!(
        render_ascii(&tree, MAX_TREE_NODES),
        "a A\n    |-- b B\n    |   |-- d D\n    |   `-- e E\n    `-- c C\n        `-- f F"
    );
    assert_eq!(render_ascii(&node("a", "A", Vec::new()), 25), "a A");
}

#[test]
fn text_leaves_out_nodes_beyond_the_limit() {
    let tree = node(
        "a",
        "A",
        vec![node("b", "B", vec![node("d", "D", Vec::new())]), node("c", "C", Vec::new())],
    );
    assert_eq!(render_ascii(&tree, 2), "a A\n    |-- b B\nadditional nodes omitted");
    assert_eq!(render_ascii(&tree, 0), "additional nodes omitted");
    assert_eq!(
        render_ascii(&tree, 4),
        "a A\n    |-- b B\n    |   `-- d D\n    `-- c C"
    );
}

#[test]
fn tree_is_drawn_in_the_asked_form() {
    let tree = node("a", "A", vec![node("b", "B", Vec::new())]);
    assert_eq!(
        render_dependency_tree(&tree, "dot", None).unwrap().as_deref(),
        Some("digraph dependencies {\n  \"a\" -> \"b\";\n}")
    );
    assert_eq!(
        render_dependency_tree(&tree, "text", None).unwrap().as_deref(),
        Some("a A\n    `-- b B")
    );
    assert_eq!(
        render_dependency_tree(&tree, "text", Some(1)).unwrap().as_deref(),
        Some("a A\nadditional nodes omitted")
    );
    assert!(render_dependency_tree(&tree, "json", None).unwrap().is_none());
    assert_eq!(
        render_dependency_tree(&tree, "yaml", None).unwrap_err().to_string(),
        "invalid format"
    );
    assert_eq!(parse_tree_format("json").unwrap(), TreeFormat::Json);
    assert!(parse_tree_format("JSON").is_err());
}
