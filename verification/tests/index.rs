use std::sync::Arc;

use kanbus::error::KanbusError;
use kanbus::index::{add_issue_to_index, build_index, IssueIndex};
use kanbus::index_build::{
    build_index_from_directory, is_issue_file_name, merge_batches, plan_chunks,
    select_issue_files, Chunk,
};
use kanbus::models::{DependencyLink, IssueData, Timestamp};

fn build_issue(
    identifier: &str,
    title: &str,
    issue_type: &str,
    status: &str,
    parent: Option<&str>,
) -> IssueData {
    let stamp = Timestamp { seconds: 1_770_768_000, nanos: 0 };
    IssueData {
        identifier: identifier.to_string(),
        title: title.to_string(),
        description: String::new(),
        issue_type: issue_type.to_string(),
        status: status.to_string(),
        priority: 2,
        assignee: None,
        creator: None,
        parent: parent.map(str::to_string),
        labels: Vec::new(),
        dependencies: Vec::new(),
        comments: Vec::new(),
        created_at: stamp,
        updated_at: stamp,
        closed_at: None,
        custom: Vec::new(),
    }
}

fn varied_issues() -> Vec<IssueData> {
    vec![
        build_issue("tsk-parent", "Parent", "epic", "open", None),
        build_issue("tsk-child", "Child", "task", "open", Some("tsk-parent")),
        build_issue("tsk-closed", "Closed", "bug", "closed", None),
        build_issue("tsk-deferred", "Deferred", "task", "deferred", None),
        build_issue("tsk-other", "Other", "story", "open", None),
    ]
}

fn identifiers(group: Option<&Vec<Arc<IssueData>>>) -> Vec<String> {
    let mut found: Vec<String> = match group {
        Some(issues) => issues.iter().map(|issue| issue.identifier.clone()).collect(),
        None => Vec::new(),
    };
    found.sort();
    found
}

#[test]
fn index_groups_five_varied_issues() {
    let index = build_index(varied_issues());
    assert_eq!(index.by_id.len(), 5);
    assert_eq!(
        identifiers(index.by_status.get("open")),
        vec!["tsk-child", "tsk-other", "tsk-parent"]
    );
    assert_eq!(identifiers(index.by_type.get("task")), vec!["tsk-child", "tsk-deferred"]);
    assert_eq!(identifiers(index.by_parent.get("tsk-parent")), vec!["tsk-child"]);
    assert!(index.by_parent.get("tsk-child").is_none());
    assert!(index.by_status.get("blocked").is_none());
}

#[test]
fn index_keeps_issues_in_the_order_they_were_folded_in() {
    let index = build_index(varied_issues());
    let open: Vec<&str> =
        index.by_status.get("open").unwrap().iter().map(|issue| issue.identifier.as_str()).collect();
    assert_eq!(open, vec!["tsk-parent", "tsk-child", "tsk-other"]);
}

#[test]
fn reverse_dependencies_hold_the_blocked_issue() {
    let mut blocked = build_issue("tsk-aaa", "Title", "task", "open", None);
    blocked.dependencies = vec![
        DependencyLink { target: "tsk-bbb".to_string(), dependency_type: "blocked-by".to_string() },
        DependencyLink { target: "tsk-ccc".to_string(), dependency_type: "relates-to".to_string() },
    ];
    let target = build_issue("tsk-bbb", "Target", "task", "open", None);
    let index = build_index(vec![blocked, target]);
    assert_eq!(identifiers(index.reverse_dependencies.get("tsk-bbb")), vec!["tsk-aaa"]);
    assert!(index.reverse_dependencies.get("tsk-ccc").is_none());
    assert!(index.reverse_dependencies.get("tsk-aaa").is_none());
}

#[test]
fn labels_are_indexed_one_group_per_label() {
    let mut parent = build_issue("tsk-parent", "Parent", "epic", "open", None);
    parent.labels = vec!["core".to_string(), "ui".to_string()];
    let mut other = build_issue("tsk-other", "Other", "task", "open", None);
    other.labels = vec!["ui".to_string()];
    let index = build_index(vec![parent, other]);
    assert_eq!(identifiers(index.by_label.get("core")), vec!["tsk-parent"]);
    assert_eq!(identifiers(index.by_label.get("ui")), vec!["tsk-other", "tsk-parent"]);
}

#[test]
fn records_are_shared_between_the_tables() {
    let index = build_index(varied_issues());
    let by_id = index.by_id.get("tsk-child").unwrap();
    let by_status = index
        .by_status
        .get("open")
        .unwrap()
        .iter()
        .find(|issue| issue.identifier == "tsk-child")
        .unwrap();
    assert!(Arc::ptr_eq(by_id, by_status));
}

#[test]
fn rebuilding_gives_the_same_groupings() {
    let first = build_index(varied_issues());
    let second = build_index(varied_issues());
    assert_eq!(first.by_id.len(), second.by_id.len());
    for key in ["open", "closed", "deferred"] {
        assert_eq!(identifiers(first.by_status.get(key)), identifiers(second.by_status.get(key)));
    }
    let mut shuffled = varied_issues();
    shuffled.reverse();
    let third = build_index(shuffled);
    for key in ["open", "closed", "deferred"] {
        assert_eq!(identifiers(first.by_status.get(key)), identifiers(third.by_status.get(key)));
    }
    for key in ["epic", "task", "bug", "story"] {
        assert_eq!(identifiers(first.by_type.get(key)), identifiers(third.by_type.get(key)));
    }
}

#[test]
fn adding_one_issue_touches_every_table() {
    let mut index = IssueIndex::new();
    assert_eq!(index.by_id.len(), 0);
    let mut issue = build_issue("tsk-1", "One", "task", "open", Some("tsk-0"));
    issue.labels = vec!["x".to_string()];
    issue.dependencies =
        vec![DependencyLink { target: "tsk-9".to_string(), dependency_type: "blocked-by".to_string() }];
    add_issue_to_index(&mut index, issue);
    assert_eq!(index.by_id.get("tsk-1").unwrap().title, "One");
    assert_eq!(identifiers(index.by_status.get("open")), vec!["tsk-1"]);
    assert_eq!(identifiers(index.by_type.get("task")), vec!["tsk-1"]);
    assert_eq!(identifiers(index.by_parent.get("tsk-0")), vec!["tsk-1"]);
    assert_eq!(identifiers(index.by_label.get("x")), vec!["tsk-1"]);
    assert_eq!(identifiers(index.reverse_dependencies.get("tsk-9")), vec!["tsk-1"]);
}

#[test]
fn by_id_is_walked_in_ascending_order_of_identifier() {
    let index = build_index(varied_issues());
    let mut keys = Vec::new();
    for i in 0..index.by_id.len() {
        keys.push(index.by_id.key_at(i).clone());
    }
    assert_eq!(keys, vec!["tsk-child", "tsk-closed", "tsk-deferred", "tsk-other", "tsk-parent"]);
}

#[test]
fn later_record_replaces_earlier_one_in_by_id() {
    let first = build_issue("tsk-1", "First", "task", "open", None);
    let second = build_issue("tsk-1", "Second", "task", "closed", None);
    let index = build_index(vec![first, second]);
    assert_eq!(index.by_id.len(), 1);
    assert_eq!(index.by_id.get("tsk-1").unwrap().title, "Second");
}

#[test]
fn issue_files_are_those_with_the_json_extension() {
    assert!(is_issue_file_name("tsk-1.json"));
    assert!(is_issue_file_name("a.b.json"));
    assert!(!is_issue_file_name(".json"));
    assert!(!is_issue_file_name("notes.txt"));
    assert!(!is_issue_file_name("json"));
    assert!(!is_issue_file_name("tsk-1.JSON"));
    assert!(!is_issue_file_name("tsk-1.json.bak"));
}

#[test]
fn issue_files_are_selected_and_sorted_by_name() {
    let names: Vec<String> = ["tsk-b.json", "notes.txt", "tsk-a.json", "tsk-B.json", "tsk-ab.json"]
        .iter()
        .map(|name| name.to_string())
        .collect();
    assert_eq!(
        select_issue_files(&names),
        vec!["tsk-B.json", "tsk-a.json", "tsk-ab.json", "tsk-b.json"]
    );
    assert!(select_issue_files(&Vec::new()).is_empty());
}

#[test]
fn chunks_hold_the_files_divided_by_the_workers_rounded_up() {
    assert_eq!(plan_chunks(0, 4), Vec::<Chunk>::new());
    assert_eq!(plan_chunks(1, 4), vec![Chunk { start: 0, end: 1 }]);
    assert_eq!(plan_chunks(5, 1), vec![Chunk { start: 0, end: 5 }]);
    assert_eq!(plan_chunks(5, 0), vec![Chunk { start: 0, end: 5 }]);
    assert_eq!(
        plan_chunks(10, 4),
        vec![
            Chunk { start: 0, end: 3 },
            Chunk { start: 3, end: 6 },
            Chunk { start: 6, end: 9 },
            Chunk { start: 9, end: 10 },
        ]
    );
    assert_eq!(
        plan_chunks(9, 4),
        vec![Chunk { start: 0, end: 3 }, Chunk { start: 3, end: 6 }, Chunk { start: 6, end: 9 }]
    );
    assert_eq!(plan_chunks(3, 8), vec![
        Chunk { start: 0, end: 1 },
        Chunk { start: 1, end: 2 },
        Chunk { start: 2, end: 3 },
    ]);
}

#[test]
fn batches_come_together_in_chunk_order() {
    let issues = varied_issues();
    let expected: Vec<String> = issues.iter().map(|issue| issue.identifier.clone()).collect();
    let mut rest = issues;
    let tail = rest.split_off(3);
    let merged = merge_batches(vec![Ok(rest), Ok(tail)]).unwrap();
    let merged_ids: Vec<String> = merged.iter().map(|issue| issue.identifier.clone()).collect();
    assert_eq!(merged_ids, expected);
}

#[test]
fn chunked_build_equals_sequential_build() {
    let sequential = build_index(varied_issues());
    let plan = plan_chunks(5, 2);
    let all = varied_issues();
    let mut outcomes = Vec::new();
    for chunk in &plan {
        outcomes.push(Ok(all[chunk.start..chunk.end].to_vec()));
    }
    let chunked = build_index_from_directory(outcomes).unwrap();
    let open_a: Vec<&str> = sequential
        .by_status
        .get("open")
        .unwrap()
        .iter()
        .map(|issue| issue.identifier.as_str())
        .collect();
    let open_b: Vec<&str> =
        chunked.by_status.get("open").unwrap().iter().map(|issue| issue.identifier.as_str()).collect();
    assert_eq!(open_a, open_b);
    assert_eq!(sequential.by_id.len(), chunked.by_id.len());
}

#[test]
fn one_failed_worker_fails_the_whole_build() {
    let issues = varied_issues();
    let outcomes = vec![
        Ok(vec![issues[0].clone()]),
        Err(KanbusError::Io("expected value at line 1 column 1".to_string())),
        Err(KanbusError::Io("index thread panicked".to_string())),
        Ok(vec![issues[1].clone()]),
    ];
    match build_index_from_directory(outcomes) {
        Ok(_) => panic!("a partial index was handed back"),
        Err(error) => assert_eq!(error.to_string(), "expected value at line 1 column 1"),
    }
}

#[test]
fn empty_directory_gives_empty_index() {
    let index = build_index_from_directory(Vec::new()).unwrap();
    assert_eq!(index.by_id.len(), 0);
    assert_eq!(index.by_status.len(), 0);
}
