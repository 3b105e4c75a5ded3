use kanbus::cli::{
    check_beads_filters, dependency_choice, format_issue_lines, format_ready_lines, migrated_line,
    text_from_words, title_from_words,
};
use kanbus::config_loader::{load_project_configuration, map_configuration_error};
use kanbus::error::KanbusError;
use kanbus::issue_delete::delete_issue;
use kanbus::issue_lookup::IssueLookupResult;
use kanbus::issue_transfer::{issue_file_path, localize_issue, promote_issue};
use kanbus::models::{IssueData, PriorityDefinition, ProjectConfiguration, Timestamp, Workflow};
use kanbus::notification_events::NotificationEvent;
use kanbus::notification_publisher::{
    get_socket_path, publish_notification, send_failure_error, SendFailure,
};
use kanbus::policy_steps::{find_step, StepCategory};
use kanbus::snyk_sync::{
    find_existing_snyk_epic, find_existing_snyk_initiative, SNYK_DEP_EPIC_TITLE,
    SNYK_INITIATIVE_TITLE,
};
use sha2::{Digest, Sha256};

fn issue(identifier: &str, issue_type: &str, title: &str, updated: i64) -> IssueData {
    IssueData {
        identifier: identifier.to_string(),
        title: title.to_string(),
        description: String::new(),
        issue_type: issue_type.to_string(),
        status: "open".to_string(),
        priority: 2,
        assignee: None,
        creator: None,
        parent: None,
        labels: vec!["security".to_string(), "snyk".to_string()],
        dependencies: Vec::new(),
        comments: Vec::new(),
        created_at: Timestamp { seconds: 0, nanos: 0 },
        updated_at: Timestamp { seconds: updated, nanos: 0 },
        closed_at: None,
        custom: Vec::new(),
    }
}

fn configuration() -> ProjectConfiguration {
    ProjectConfiguration {
        project_directory: "project".to_string(),
        project_key: "tsk".to_string(),
        hierarchy: vec!["epic".to_string(), "task".to_string()],
        types: vec!["bug".to_string()],
        workflows: vec![Workflow { name: "default".to_string(), transitions: Vec::new() }],
        priorities: vec![PriorityDefinition { level: 2, name: "medium".to_string(), color: None }],
        default_priority: 2,
        statuses: Vec::new(),
        type_colors: Vec::new(),
        console_port: None,
    }
}

fn operation_message(result: Result<impl std::fmt::Debug, KanbusError>) -> String {
    match result {
        Err(KanbusError::IssueOperation(message)) => message,
        other => panic!("expected an issue operation error, got {other:?}"),
    }
}

#[test]
fn an_unknown_field_is_reported_in_short() {
    assert_eq!(
        map_configuration_error("unknown field `colour`, expected one of `a`, `b`"),
        "unknown configuration fields"
    );
    assert_eq!(map_configuration_error("invalid type: string"), "invalid type: string");
    assert_eq!(map_configuration_error(""), "");
}

#[test]
fn a_configuration_that_meets_the_rules_is_loaded() {
    let loaded = load_project_configuration(Ok(configuration())).unwrap();
    assert_eq!(loaded.project_key, "tsk");
    assert_eq!(loaded.hierarchy, vec!["epic", "task"]);
}

#[test]
fn a_configuration_that_breaks_rules_is_refused_with_all_complaints() {
    let mut broken = configuration();
    broken.hierarchy = Vec::new();
    broken.default_priority = 9;
    match load_project_configuration(Ok(broken)) {
        Err(KanbusError::Configuration(message)) => assert_eq!(
            message,
            "hierarchy must not be empty; default priority must be in priorities map"
        ),
        _ => panic!("expected a configuration error"),
    }
}

#[test]
fn a_complaint_about_the_shape_is_a_configuration_error() {
    match load_project_configuration(Err("unknown field `x`".to_string())) {
        Err(KanbusError::Configuration(message)) => {
            assert_eq!(message, "unknown configuration fields")
        }
        _ => panic!("expected a configuration error"),
    }
    match load_project_configuration(Err("missing field `project_key`".to_string())) {
        Err(KanbusError::Configuration(message)) => {
            assert_eq!(message, "missing field `project_key`")
        }
        _ => panic!("expected a configuration error"),
    }
}

#[test]
fn issue_files_lie_below_the_issues_directory() {
    assert_eq!(issue_file_path("/repo/project", "tsk-abc"), "/repo/project/issues/tsk-abc.json");
    assert_eq!(issue_file_path("/repo/project/", "tsk-abc"), "/repo/project/issues/tsk-abc.json");
}

#[test]
fn promoting_moves_a_local_issue_to_the_shared_directory() {
    let plan =
        promote_issue("/repo/project", Some("/repo/project-local"), "tsk-abc", true, false).unwrap();
    assert_eq!(plan.source, "/repo/project-local/issues/tsk-abc.json");
    assert_eq!(plan.target, "/repo/project/issues/tsk-abc.json");
}

#[test]
fn promoting_fails_without_local_directory_or_file_or_onto_a_file() {
    assert_eq!(
        operation_message(promote_issue("/repo/project", None, "tsk-abc", true, false)),
        "project-local not initialized"
    );
    assert_eq!(
        operation_message(promote_issue("/p", Some("/l"), "tsk-abc", false, false)),
        "not found"
    );
    assert_eq!(
        operation_message(promote_issue("/p", Some("/l"), "tsk-abc", false, true)),
        "not found"
    );
    assert_eq!(
        operation_message(promote_issue("/p", Some("/l"), "tsk-abc", true, true)),
        "already exists"
    );
}

#[test]
fn localizing_moves_a_shared_issue_to_the_local_directory() {
    let plan = localize_issue("/repo/project", "/repo/project-local", "tsk-abc", true, false).unwrap();
    assert_eq!(plan.source, "/repo/project/issues/tsk-abc.json");
    assert_eq!(plan.target, "/repo/project-local/issues/tsk-abc.json");
    assert_eq!(operation_message(localize_issue("/p", "/l", "x", false, false)), "not found");
    assert_eq!(operation_message(localize_issue("/p", "/l", "x", true, true)), "already exists");
}

#[test]
fn deleting_names_the_file_and_the_event() {
    let lookup = IssueLookupResult {
        issue: issue("tsk-abc", "task", "Title", 0),
        issue_path: "/repo/project/issues/tsk-abc.json".to_string(),
        project_dir: "/repo/project".to_string(),
    };
    let deletion = delete_issue(lookup);
    assert_eq!(deletion.issue_path, "/repo/project/issues/tsk-abc.json");
    match deletion.event {
        NotificationEvent::IssueDeleted { issue_id } => assert_eq!(issue_id, "tsk-abc"),
        _ => panic!("expected a deletion event"),
    }
}

#[test]
fn the_socket_name_carries_twelve_digits_of_the_hash_of_the_root() {
    let hash = format!("{:x}", Sha256::digest("/repo/root".as_bytes()));
    assert_eq!(get_socket_path("/tmp", "/repo/root"), format!("/tmp/kanbus-{}.sock", &hash[..12]));
    assert_ne!(get_socket_path("/tmp", "/repo/root"), get_socket_path("/tmp", "/repo/other"));
    assert_eq!(
        get_socket_path("/tmp", ""),
        "/tmp/kanbus-e3b0c44298fc.sock"
    );
}

#[test]
fn failed_sends_are_reported_by_their_kind() {
    let cases = [
        (SendFailure::Unreachable, "Console server not reachable (socket: /tmp/s.sock): refused"),
        (SendFailure::Serialize, "Failed to serialize event: refused"),
        (SendFailure::Write, "Failed to write to socket: refused"),
        (SendFailure::Newline, "Failed to write newline: refused"),
        (SendFailure::Http, "Failed to send HTTP notification: refused"),
    ];
    for (failure, expected) in cases {
        let error = send_failure_error(failure, "/tmp/s.sock", "refused");
        assert_eq!(operation_message(Err::<(), KanbusError>(error)), expected);
    }
}

#[test]
fn publishing_warns_only_where_both_sends_fail() {
    let socket = || KanbusError::IssueOperation("no socket".to_string());
    let http = || KanbusError::IssueOperation("no console".to_string());
    assert_eq!(publish_notification(Ok(()), None), None);
    assert_eq!(publish_notification(Err(socket()), Some(Ok(()))), None);
    assert_eq!(publish_notification(Err(socket()), None), None);
    assert_eq!(publish_notification(Ok(()), Some(Err(http()))), None);
    assert_eq!(
        publish_notification(Err(socket()), Some(Err(http()))),
        Some("Warning: Failed to send notification (socket: no socket, http: no console)".to_string())
    );
}

#[test]
fn the_initiative_updated_last_is_found() {
    let mut other_title = issue("tsk-1", "initiative", "Something else", 50);
    other_title.labels = vec!["snyk".to_string()];
    let mut unlabelled = issue("tsk-2", "initiative", SNYK_INITIATIVE_TITLE, 60);
    unlabelled.labels = vec!["security".to_string()];
    let issues = vec![
        other_title,
        unlabelled,
        issue("tsk-3", "epic", SNYK_INITIATIVE_TITLE, 70),
        issue("tsk-4", "initiative", SNYK_INITIATIVE_TITLE, 10),
        issue("tsk-5", "initiative", SNYK_INITIATIVE_TITLE, 30),
        issue("tsk-6", "initiative", SNYK_INITIATIVE_TITLE, 30),
        issue("tsk-7", "initiative", SNYK_INITIATIVE_TITLE, 20),
    ];
    assert_eq!(find_existing_snyk_initiative(&issues), Some("tsk-5".to_string()));
    assert_eq!(find_existing_snyk_initiative(&issues[..3].to_vec_by_clone()), None);
    assert_eq!(find_existing_snyk_initiative(&Vec::new()), None);
}

trait CloneIssues {
    fn to_vec_by_clone(&self) -> Vec<IssueData>;
}

impl CloneIssues for [IssueData] {
    fn to_vec_by_clone(&self) -> Vec<IssueData> {
        self.iter().cloned().collect()
    }
}

#[test]
fn an_epic_is_found_under_its_initiative_only() {
    let mut under = issue("tsk-a", "epic", SNYK_DEP_EPIC_TITLE, 5);
    under.parent = Some("tsk-init".to_string());
    let mut later = issue("tsk-b", "epic", SNYK_DEP_EPIC_TITLE, 5);
    later.parent = Some("tsk-init".to_string());
    later.updated_at = Timestamp { seconds: 5, nanos: 1 };
    let mut elsewhere = issue("tsk-c", "epic", SNYK_DEP_EPIC_TITLE, 99);
    elsewhere.parent = Some("tsk-other".to_string());
    let orphan = issue("tsk-d", "epic", SNYK_DEP_EPIC_TITLE, 99);
    let issues = vec![under, later, elsewhere, orphan];
    assert_eq!(
        find_existing_snyk_epic(&issues, SNYK_DEP_EPIC_TITLE, "tsk-init"),
        Some("tsk-b".to_string())
    );
    assert_eq!(
        find_existing_snyk_epic(&issues, SNYK_DEP_EPIC_TITLE, "tsk-other"),
        Some("tsk-c".to_string())
    );
    assert_eq!(find_existing_snyk_epic(&issues, SNYK_DEP_EPIC_TITLE, "tsk-none"), None);
    assert_eq!(find_existing_snyk_epic(&issues, "Another title", "tsk-init"), None);
}

#[test]
fn steps_know_their_category() {
    let given = find_step("the issue type is \"bug\"").unwrap();
    assert_eq!(given.category(), StepCategory::Given);
    let when = find_step("transitioning to \"closed\"").unwrap();
    assert_eq!(when.category(), StepCategory::When);
    let then = find_step("the description must not be empty").unwrap();
    assert_eq!(then.category(), StepCategory::Then);
}

#[test]
fn a_title_is_made_of_the_words_given() {
    let words = vec!["Fix".to_string(), "the".to_string(), "bug".to_string()];
    assert_eq!(title_from_words(&words).unwrap(), "Fix the bug");
    assert_eq!(operation_message(title_from_words(&Vec::new())), "title is required");
    assert_eq!(
        operation_message(title_from_words(&vec![" ".to_string(), "".to_string()])),
        "title is required"
    );
    assert_eq!(text_from_words(Some(&words)), Some("Fix the bug".to_string()));
    assert_eq!(text_from_words(Some(&Vec::new())), None);
    assert_eq!(text_from_words(Some(&vec!["".to_string()])), None);
    assert_eq!(text_from_words(Some(&vec!["".to_string(), "".to_string()])), Some(" ".to_string()));
    assert_eq!(text_from_words(None), None);
}

#[test]
fn a_dependency_command_names_a_blocker_or_a_relation() {
    assert_eq!(
        dependency_choice(Some("tsk-a".to_string()), Some("tsk-b".to_string())).unwrap(),
        ("tsk-a".to_string(), "blocked-by")
    );
    assert_eq!(
        dependency_choice(None, Some("tsk-b".to_string())).unwrap(),
        ("tsk-b".to_string(), "relates-to")
    );
    assert_eq!(operation_message(dependency_choice(None, None)), "dependency target is required");
}

#[test]
fn a_beads_listing_takes_no_filter_by_place() {
    assert!(check_beads_filters(false, false).is_ok());
    for (local_only, no_local) in [(true, false), (false, true), (true, true)] {
        assert_eq!(
            operation_message(check_beads_filters(local_only, no_local)),
            "beads mode does not support local filtering"
        );
    }
}

#[test]
fn listings_hold_one_line_per_issue() {
    let issues = vec![issue("tsk-a", "task", "First", 0), issue("tsk-b", "task", "Second", 0)];
    assert_eq!(format_issue_lines(&issues), "tsk-a First\ntsk-b Second");
    assert_eq!(format_ready_lines(&issues), "tsk-a\ntsk-b");
    assert_eq!(format_issue_lines(&Vec::new()), "");
    assert_eq!(migrated_line(0), "migrated 0 issues");
    assert_eq!(migrated_line(1234), "migrated 1234 issues");
}
