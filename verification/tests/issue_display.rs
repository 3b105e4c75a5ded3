use kanbus::issue_display::{
    colorize, format_issue_for_display, format_signed, parse_color, priority_color, status_color,
    type_color, AnsiColor,
};
use kanbus::models::{
    DependencyLink, IssueComment, IssueData, PriorityDefinition, ProjectConfiguration,
    StatusDefinition, Timestamp, TypeColor,
};
use owo_colors::{AnsiColors, OwoColorize};

fn sample_issue(identifier: &str) -> IssueData {
    let now = Timestamp { seconds: 1_770_768_000, nanos: 0 };
    IssueData {
        identifier: identifier.to_string(),
        title: "Title".to_string(),
        description: "Desc".to_string(),
        issue_type: "task".to_string(),
        status: "open".to_string(),
        priority: 2,
        assignee: Some("dev@example.com".to_string()),
        creator: None,
        parent: Some("kanbus-parent".to_string()),
        labels: vec!["one".to_string(), "two".to_string()],
        dependencies: Vec::new(),
        comments: Vec::new(),
        created_at: now,
        updated_at: now,
        closed_at: None,
        custom: Vec::new(),
    }
}

fn configuration() -> ProjectConfiguration {
    ProjectConfiguration {
        project_directory: "project".to_string(),
        project_key: "kanbus".to_string(),
        hierarchy: vec!["epic".to_string(), "task".to_string()],
        types: vec!["bug".to_string()],
        workflows: Vec::new(),
        priorities: vec![
            PriorityDefinition { level: 0, name: "critical".to_string(), color: Some("magenta".to_string()) },
            PriorityDefinition { level: 2, name: "medium".to_string(), color: None },
        ],
        default_priority: 2,
        statuses: vec![
            StatusDefinition { key: "open".to_string(), name: "Open".to_string(), color: None },
            StatusDefinition { key: "closed".to_string(), name: "Closed".to_string(), color: Some("nonsense".to_string()) },
        ],
        type_colors: vec![TypeColor { issue_type: "task".to_string(), color: "Bright_Green".to_string() }],
        console_port: None,
    }
}

#[test]
fn formats_issue_with_details() {
    let issue = sample_issue("kanbus-abc1234");
    let expected_id = "kanbus-abc123";
    let output = format_issue_for_display(&issue, None, false, expected_id);
    assert!(output.contains(&format!("ID: {expected_id}")));
    assert!(output.contains("Title: Title"));
    assert!(output.contains("Type: task"));
    assert!(output.contains("Status: open"));
    assert!(output.contains("Priority: 2"));
    assert!(output.contains("Assignee: dev@example.com"));
    assert!(output.contains("Parent: kanbus-parent"));
    assert!(output.contains("Labels: one, two"));
    assert!(output.contains("Description:"));
    assert!(output.contains("Desc"));
}

#[test]
fn formats_issue_with_comments() {
    let mut issue = sample_issue("kanbus-abc1234");
    let now = issue.created_at;
    issue.comments.push(IssueComment {
        id: Some("abc123".to_string()),
        author: "dev@example.com".to_string(),
        text: "Hello".to_string(),
        created_at: now,
    });
    let output = format_issue_for_display(&issue, None, false, "kanbus-abc123");
    assert!(output.contains("Comments:"));
    assert!(output.contains("[abc123] dev@example.com: Hello"));
}

#[test]
fn uses_configured_colors_when_present() {
    let mut config = configuration();
    if let Some(status) = config.statuses.iter_mut().find(|s| s.key == "open") {
        status.color = Some("bright_white".to_string());
    }
    assert_eq!(status_color("open", Some(&config)), Some(AnsiColor::BrightWhite));
}

#[test]
fn whole_display_without_colors() {
    let mut issue = sample_issue("kanbus-abc1234");
    issue.assignee = None;
    issue.parent = None;
    issue.labels = Vec::new();
    issue.priority = -3;
    issue.dependencies = vec![DependencyLink {
        target: "kanbus-other".to_string(),
        dependency_type: "blocked-by".to_string(),
    }];
    issue.comments = vec![
        IssueComment {
            id: Some("0123456789".to_string()),
            author: String::new(),
            text: "First".to_string(),
            created_at: issue.created_at,
        },
        IssueComment { id: None, author: "dev".to_string(), text: "Second".to_string(), created_at: issue.created_at },
        IssueComment {
            id: Some(String::new()),
            author: "dev".to_string(),
            text: "Third".to_string(),
            created_at: issue.created_at,
        },
    ];
    assert_eq!(
        format_issue_for_display(&issue, None, false, "abc123"),
        "ID: abc123\nTitle: Title\nType: task\nStatus: open\nPriority: -3\nAssignee: -\nParent: -\nLabels: -\nDescription:\nDesc\nDependencies:\n  blocked-by: kanbus-other\nComments:\n  [012345] unknown: First\n  dev: Second\n  dev: Third"
    );
    issue.description = String::new();
    issue.dependencies.clear();
    issue.comments.clear();
    assert_eq!(
        format_issue_for_display(&issue, None, false, "abc123"),
        "ID: abc123\nTitle: Title\nType: task\nStatus: open\nPriority: -3\nAssignee: -\nParent: -\nLabels: -"
    );
}

#[test]
fn display_with_colors_paints_values_and_dims_labels() {
    let mut issue = sample_issue("kanbus-abc1234");
    issue.parent = None;
    issue.description = String::new();
    let config = configuration();
    let output = format_issue_for_display(&issue, Some(&config), true, "abc123");
    let dim = |text: &str| text.color(AnsiColors::BrightBlack).to_string();
    let expected = vec![
        format!("{} abc123", dim("ID:")),
        format!("{} Title", dim("Title:")),
        format!("{} {}", dim("Type:"), "task".color(AnsiColors::BrightGreen)),
        format!("{} {}", dim("Status:"), "open".color(AnsiColors::Cyan)),
        format!("{} {}", dim("Priority:"), "2".color(AnsiColors::Yellow)),
        format!("{} dev@example.com", dim("Assignee:")),
        format!("{} {}", dim("Parent:"), dim("-")),
        format!("{} one, two", dim("Labels:")),
    ];
    assert_eq!(output, expected.join("\n"));
}

#[test]
fn colors_are_written_as_the_terminal_library_writes_them() {
    let pairs = [
        (AnsiColor::Black, AnsiColors::Black),
        (AnsiColor::Red, AnsiColors::Red),
        (AnsiColor::Green, AnsiColors::Green),
        (AnsiColor::Yellow, AnsiColors::Yellow),
        (AnsiColor::Blue, AnsiColors::Blue),
        (AnsiColor::Magenta, AnsiColors::Magenta),
        (AnsiColor::Cyan, AnsiColors::Cyan),
        (AnsiColor::White, AnsiColors::White),
        (AnsiColor::BrightBlack, AnsiColors::BrightBlack),
        (AnsiColor::BrightRed, AnsiColors::BrightRed),
        (AnsiColor::BrightGreen, AnsiColors::BrightGreen),
        (AnsiColor::BrightYellow, AnsiColors::BrightYellow),
        (AnsiColor::BrightBlue, AnsiColors::BrightBlue),
        (AnsiColor::BrightMagenta, AnsiColors::BrightMagenta),
        (AnsiColor::BrightCyan, AnsiColors::BrightCyan),
        (AnsiColor::BrightWhite, AnsiColors::BrightWhite),
    ];
    for (ours, theirs) in pairs {
        assert_eq!(colorize("text", ours), "text".color(theirs).to_string());
    }
    assert_eq!(colorize("", AnsiColor::Red), "\u{1b}[31m\u{1b}[39m");
}

#[test]
fn color_names_are_read_in_any_case() {
    assert_eq!(parse_color("red"), Some(AnsiColor::Red));
    assert_eq!(parse_color("RED"), Some(AnsiColor::Red));
    assert_eq!(parse_color("Bright_Cyan"), Some(AnsiColor::BrightCyan));
    assert_eq!(parse_color("bright_black"), Some(AnsiColor::BrightBlack));
    assert_eq!(parse_color("bright black"), None);
    assert_eq!(parse_color("purple"), None);
    assert_eq!(parse_color(""), None);
}

#[test]
fn colors_fall_back_to_the_defaults() {
    let config = configuration();
    assert_eq!(status_color("open", Some(&config)), Some(AnsiColor::Cyan));
    assert_eq!(status_color("closed", Some(&config)), None);
    assert_eq!(status_color("closed", None), Some(AnsiColor::Green));
    assert_eq!(status_color("in_progress", None), Some(AnsiColor::Blue));
    assert_eq!(status_color("blocked", None), Some(AnsiColor::Red));
    assert_eq!(status_color("deferred", None), Some(AnsiColor::Yellow));
    assert_eq!(status_color("other", None), None);
    assert_eq!(priority_color(0, Some(&config)), Some(AnsiColor::Magenta));
    assert_eq!(priority_color(256, Some(&config)), Some(AnsiColor::Magenta));
    assert_eq!(priority_color(-256, Some(&config)), Some(AnsiColor::Magenta));
    assert_eq!(priority_color(2, Some(&config)), Some(AnsiColor::Yellow));
    assert_eq!(priority_color(1, Some(&config)), Some(AnsiColor::BrightRed));
    assert_eq!(priority_color(0, None), Some(AnsiColor::Red));
    assert_eq!(priority_color(3, None), Some(AnsiColor::Blue));
    assert_eq!(priority_color(4, None), Some(AnsiColor::White));
    assert_eq!(priority_color(5, None), None);
    assert_eq!(type_color("task", Some(&config)), Some(AnsiColor::BrightGreen));
    assert_eq!(type_color("epic", Some(&config)), Some(AnsiColor::Magenta));
    assert_eq!(type_color("task", None), Some(AnsiColor::Cyan));
    assert_eq!(type_color("initiative", None), Some(AnsiColor::BrightBlue));
    assert_eq!(type_color("sub-task", None), Some(AnsiColor::BrightCyan));
    assert_eq!(type_color("bug", None), Some(AnsiColor::Red));
    assert_eq!(type_color("story", None), Some(AnsiColor::Yellow));
    assert_eq!(type_color("chore", None), Some(AnsiColor::Green));
    assert_eq!(type_color("event", None), Some(AnsiColor::BrightBlue));
    assert_eq!(type_color("else", None), None);
}

#[test]
fn signed_numbers_are_written_in_decimal() {
    for n in [0, 1, -1, 42, -42, i32::MAX, i32::MIN] {
        assert_eq!(format_signed(n), n.to_string());
    }
}
