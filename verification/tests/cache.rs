use kanbus::cache::{
    collect_issue_file_mtimes, load_cache_if_valid, same_manifest, write_cache, FileStamp,
};
use kanbus::index::build_index;
use kanbus::models::{IssueData, Timestamp};

fn issue(identifier: &str) -> IssueData {
    let stamp = Timestamp { seconds: 1_770_768_000, nanos: 0 };
    IssueData {
        identifier: identifier.to_string(),
        title: "Cache".to_string(),
        description: String::new(),
        issue_type: "task".to_string(),
        status: "open".to_string(),
        priority: 2,
        assignee: None,
        creator: None,
        parent: None,
        labels: Vec::new(),
        dependencies: Vec::new(),
        comments: Vec::new(),
        created_at: stamp,
        updated_at: stamp,
        closed_at: None,
        custom: Vec::new(),
    }
}

fn stamp(name: &str, seconds: i64, nanos: u32) -> FileStamp {
    FileStamp { name: name.to_string(), modified: Timestamp { seconds, nanos } }
}

fn directory() -> Vec<FileStamp> {
    vec![
        stamp("tsk-cache.json", 1_700_000_000, 5),
        stamp("notes.txt", 1_700_000_001, 0),
        stamp("tsk-other.json", 1_700_000_002, 0),
    ]
}

#[test]
fn manifest_holds_one_entry_per_issue_file() {
    let manifest = collect_issue_file_mtimes(&directory());
    assert_eq!(manifest.len(), 2);
    assert_eq!(manifest.get("tsk-cache.json"), Some(&Timestamp { seconds: 1_700_000_000, nanos: 5 }));
    assert_eq!(manifest.get("tsk-other.json"), Some(&Timestamp { seconds: 1_700_000_002, nanos: 0 }));
    assert!(manifest.get("notes.txt").is_none());
}

#[test]
fn cache_is_loaded_while_the_directory_is_unchanged() {
    let index = build_index(vec![issue("tsk-cache"), issue("tsk-other")]);
    let entry = write_cache(index, collect_issue_file_mtimes(&directory()));
    let mut listing = directory();
    listing.reverse();
    let current = collect_issue_file_mtimes(&listing);
    let loaded = load_cache_if_valid(Some(entry), &current).expect("cache should be valid");
    assert_eq!(loaded.by_id.len(), 2);
    assert_eq!(loaded.by_id.get("tsk-cache").unwrap().title, "Cache");
}

#[test]
fn absent_cache_is_a_miss() {
    let current = collect_issue_file_mtimes(&directory());
    assert!(load_cache_if_valid(None, &current).is_none());
}

#[test]
fn added_file_invalidates_the_cache() {
    let entry = write_cache(build_index(vec![issue("tsk-cache")]), collect_issue_file_mtimes(&directory()));
    let mut listing = directory();
    listing.push(stamp("tsk-cache-new.json", 1_700_000_003, 0));
    assert!(load_cache_if_valid(Some(entry), &collect_issue_file_mtimes(&listing)).is_none());
}

#[test]
fn removed_file_invalidates_the_cache() {
    let entry = write_cache(build_index(vec![issue("tsk-cache")]), collect_issue_file_mtimes(&directory()));
    let mut listing = directory();
    listing.remove(0);
    assert!(load_cache_if_valid(Some(entry), &collect_issue_file_mtimes(&listing)).is_none());
}

#[test]
fn modified_file_invalidates_the_cache() {
    let entry = write_cache(build_index(vec![issue("tsk-cache")]), collect_issue_file_mtimes(&directory()));
    let mut listing = directory();
    listing[0].modified.nanos = 6;
    assert!(load_cache_if_valid(Some(entry), &collect_issue_file_mtimes(&listing)).is_none());
}

#[test]
fn files_that_are_no_issue_files_do_not_count() {
    let entry = write_cache(build_index(vec![issue("tsk-cache")]), collect_issue_file_mtimes(&directory()));
    let mut listing = directory();
    listing[1].modified.seconds += 10;
    listing.push(stamp("README.md", 1, 1));
    assert!(load_cache_if_valid(Some(entry), &collect_issue_file_mtimes(&listing)).is_some());
}

#[test]
fn manifests_are_compared_by_names_and_times() {
    let a = collect_issue_file_mtimes(&directory());
    let b = collect_issue_file_mtimes(&directory());
    assert!(same_manifest(&a, &b));
    let renamed = collect_issue_file_mtimes(&vec![
        stamp("tsk-cache.json", 1_700_000_000, 5),
        stamp("tsk-othex.json", 1_700_000_002, 0),
    ]);
    assert!(!same_manifest(&a, &renamed));
    let empty = collect_issue_file_mtimes(&Vec::new());
    assert!(!same_manifest(&a, &empty));
    assert!(same_manifest(&empty, &collect_issue_file_mtimes(&vec![stamp("x.txt", 0, 0)])));
}
