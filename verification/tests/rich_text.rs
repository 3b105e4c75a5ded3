use kanbus::models::{IssueData, Timestamp};
use kanbus::notification_events::NotificationEvent;
use kanbus::rich_text_signals::{
    apply_text_quality_signals, emit_signals, has_diagram_block, has_markdown_formatting,
    repair_escape_sequences, start_stderr_capture, take_captured_stderr, write_stderr,
    StderrCapture, TextQualityResult, DIAGRAM_SUGGESTION, ESCAPE_WARNING, MARKDOWN_SUGGESTION,
};

fn issue(identifier: &str) -> IssueData {
    let stamp = Timestamp { seconds: 0, nanos: 0 };
    IssueData {
        identifier: identifier.to_string(),
        title: "Title".to_string(),
        description: String::new(),
        issue_type: "task".to_string(),
        status: "open".to_string(),
        priority: 2,
        assignee: None,
        creator: None,
        parent: None,
        labels: Vec::new(),
        dependencies: Vec::new(),
        comments: Vec::new(),
        created_at: stamp,
        updated_at: stamp,
        closed_at: None,
        custom: Vec::new(),
    }
}

#[test]
fn escaped_line_feeds_are_repaired() {
    assert_eq!(repair_escape_sequences("a\\nb"), ("a\nb".to_string(), true));
    assert_eq!(repair_escape_sequences("a\\n\\nb\\n"), ("a\n\nb\n".to_string(), true));
    assert_eq!(repair_escape_sequences("plain\ntext"), ("plain\ntext".to_string(), false));
    assert_eq!(repair_escape_sequences("\\"), ("\\".to_string(), false));
    assert_eq!(repair_escape_sequences("\\\\n"), ("\\\n".to_string(), true));
    assert_eq!(repair_escape_sequences(""), (String::new(), false));
    for text in ["\\n", "x\\ny\\", "\\\\\\n\\nn", "no escapes", "\\t\\n"] {
        assert_eq!(repair_escape_sequences(text).0, text.replace("\\n", "\n"));
        assert_eq!(repair_escape_sequences(text).1, text.contains("\\n"));
    }
}

#[test]
fn markdown_is_recognised_by_its_elements() {
    for text in [
        "# Heading",
        "  ###### deep",
        "some **bold** text",
        "an *emphasised*, word",
        "some __bold__ text",
        "an _emphasised_. Word",
        "```\ncode\n```",
        "inline `code`",
        "> quote",
        "- item",
        "* item",
        "+ item",
        "1. first",
        "12 apples. Then pears",
        "text\n---\nmore",
        "a [link](http://x)",
    ] {
        assert!(has_markdown_formatting(text), "text {:?}", text);
    }
    for text in [
        "",
        "Just a plain sentence.",
        "#hashtag",
        "####### seven",
        "a * b",
        "2 * 3 * 4",
        "an *emphasised* word",
        "an _emphasised_ word",
        "trailing *marker*",
        "one ** only",
        "-dash",
        "1.",
        "x1. y",
        "----",
        "a ] ( b",
        "**",
    ] {
        assert!(!has_markdown_formatting(text), "text {:?}", text);
    }
}

#[test]
fn diagram_blocks_are_recognised_by_their_fence() {
    assert!(has_diagram_block("```mermaid\ngraph TD\n```"));
    assert!(has_diagram_block("text\n  ```PlantUML  \n@startuml"));
    assert!(has_diagram_block("```D2"));
    assert!(!has_diagram_block("```json\n{}\n```"));
    assert!(!has_diagram_block("``` mermaid"));
    assert!(!has_diagram_block("mermaid"));
    assert!(!has_diagram_block(""));
}

#[test]
fn signals_repair_warn_and_suggest() {
    let result = apply_text_quality_signals("First\\nSecond");
    assert_eq!(result.text, "First\nSecond");
    assert!(result.escape_sequences_repaired);
    assert_eq!(result.warnings, vec![ESCAPE_WARNING.to_string()]);
    assert_eq!(
        result.suggestions,
        vec![MARKDOWN_SUGGESTION.to_string(), DIAGRAM_SUGGESTION.to_string()]
    );
    assert!(result.warnings[0].starts_with(
        "WARNING: Literal \\n escape sequences were detected and replaced with real newlines.\n  To pass"
    ));

    let fine = apply_text_quality_signals("# Title\n```mermaid\ngraph TD\n```");
    assert_eq!(fine.text, "# Title\n```mermaid\ngraph TD\n```");
    assert!(!fine.escape_sequences_repaired);
    assert!(fine.warnings.is_empty());
    assert!(fine.suggestions.is_empty());

    let repaired_into_markdown = apply_text_quality_signals("intro\\n- item");
    assert_eq!(repaired_into_markdown.suggestions, vec![DIAGRAM_SUGGESTION.to_string()]);
}

#[test]
fn signals_are_put_out_warnings_first_then_suggestions_then_the_hint() {
    let result = apply_text_quality_signals("First\\nSecond");
    let lines = emit_signals(&result, "description", Some("tsk-1"), None, false);
    assert_eq!(
        lines,
        vec![
            ESCAPE_WARNING.to_string(),
            MARKDOWN_SUGGESTION.to_string(),
            DIAGRAM_SUGGESTION.to_string(),
            "  -> To update the description: kbs update tsk-1 --description \"<your improved description here>\""
                .to_string(),
        ]
    );
    let comment = emit_signals(&result, "comment", Some("tsk-1"), Some("c9"), true);
    assert_eq!(
        comment[3],
        "  -> To update this comment: kbs comment update tsk-1 c9 \"<your improved comment here>\""
    );
    assert_eq!(emit_signals(&result, "description", None, Some("c9"), false).len(), 3);
    let quiet = TextQualityResult {
        text: "x".to_string(),
        warnings: vec!["w".to_string()],
        suggestions: Vec::new(),
        escape_sequences_repaired: true,
    };
    assert_eq!(emit_signals(&quiet, "description", Some("tsk-1"), None, false), vec!["w"]);
    assert!(emit_signals(&TextQualityResult::default(), "d", Some("t"), None, false).is_empty());
}

#[test]
fn events_name_their_issue_and_describe_themselves() {
    let created = NotificationEvent::IssueCreated {
        issue_id: "tsk-1".to_string(),
        issue_data: issue("tsk-1"),
    };
    assert_eq!(created.issue_id(), "tsk-1");
    assert_eq!(created.description(), "Issue tsk-1 created");
    let updated = NotificationEvent::IssueUpdated {
        issue_id: "tsk-2".to_string(),
        fields_changed: vec!["status".to_string(), "title".to_string()],
        issue_data: issue("tsk-2"),
    };
    assert_eq!(updated.issue_id(), "tsk-2");
    assert_eq!(updated.description(), "Issue tsk-2 updated: status, title");
    let untouched = NotificationEvent::IssueUpdated {
        issue_id: "tsk-2".to_string(),
        fields_changed: Vec::new(),
        issue_data: issue("tsk-2"),
    };
    assert_eq!(untouched.description(), "Issue tsk-2 updated");
    let deleted = NotificationEvent::IssueDeleted { issue_id: "tsk-3".to_string() };
    assert_eq!(deleted.issue_id(), "tsk-3");
    assert_eq!(deleted.description(), "Issue tsk-3 deleted");
    let focused = NotificationEvent::IssueFocused {
        issue_id: "tsk-4".to_string(),
        user: Some("dev".to_string()),
    };
    assert_eq!(focused.description(), "Issue tsk-4 focused by dev");
    let unfocused = NotificationEvent::IssueFocused { issue_id: "tsk-4".to_string(), user: None };
    assert_eq!(unfocused.issue_id(), "tsk-4");
    assert_eq!(unfocused.description(), "Issue tsk-4 focused");
}

#[test]
fn captured_lines_are_kept_until_they_are_taken() {
    let mut capture = StderrCapture::new();
    assert!(!write_stderr(&mut capture, "lost"));
    assert_eq!(take_captured_stderr(&mut capture), None);
    start_stderr_capture(&mut capture);
    assert!(write_stderr(&mut capture, "first"));
    assert!(write_stderr(&mut capture, ""));
    assert!(write_stderr(&mut capture, "third"));
    assert_eq!(take_captured_stderr(&mut capture), Some("first\n\nthird\n".to_string()));
    assert_eq!(take_captured_stderr(&mut capture), None);
    assert!(!write_stderr(&mut capture, "lost again"));
    start_stderr_capture(&mut capture);
    assert!(write_stderr(&mut capture, "kept"));
    start_stderr_capture(&mut capture);
    assert_eq!(take_captured_stderr(&mut capture), Some(String::new()));
}
