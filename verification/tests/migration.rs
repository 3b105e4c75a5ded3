use chrono::{DateTime, TimeZone, Utc};
use kanbus::content_validation::{
    block_verdict, invalid_block_error, validate_gherkin, validate_json, validate_yaml, CodeBlock,
};
use kanbus::error::KanbusError;
use kanbus::ids::digest_head;
use kanbus::migration::{
    convert_comments, normalize_timestamp, parse_timestamp, required_string, timestamp_from,
    BeadsComment, TimeField,
};
use kanbus::models::Timestamp;
use kanbus::policy_execution::title_result;
use kanbus::policy_steps::StepOutcome;

fn message<T: std::fmt::Debug>(result: Result<T, KanbusError>) -> String {
    match result {
        Err(KanbusError::IssueOperation(text)) => text,
        other => panic!("expected an issue operation error, got {other:?}"),
    }
}

fn text(value: &str) -> TimeField {
    TimeField::Text(value.to_string())
}

fn comment(author: Option<&str>, body: Option<&str>, created_at: TimeField) -> BeadsComment {
    BeadsComment {
        author: author.map(str::to_string),
        text: body.map(str::to_string),
        created_at,
    }
}

fn block(language: &str, content: &str) -> CodeBlock {
    CodeBlock { language: language.to_string(), content: content.to_string(), start_line: 4 }
}

#[test]
fn a_required_text_must_hold_more_than_white_space() {
    assert_eq!(required_string(Some("Title"), "title").unwrap(), "Title");
    assert_eq!(required_string(Some(" padded "), "title").unwrap(), " padded ");
    assert_eq!(message(required_string(Some("  \t"), "title")), "title is required");
    assert_eq!(message(required_string(Some(""), "id")), "id is required");
    assert_eq!(message(required_string(None, "status")), "status is required");
}

#[test]
fn a_trailing_zulu_gives_way_to_an_offset() {
    assert_eq!(normalize_timestamp("2024-01-01T00:00:00Z"), "2024-01-01T00:00:00+00:00");
    assert_eq!(normalize_timestamp("2024-01-01T00:00:00+01:00"), "2024-01-01T00:00:00+01:00");
    assert_eq!(normalize_timestamp("Z"), "+00:00");
    assert_eq!(normalize_timestamp("ZaZ"), "+00:00a+00:00");
    assert_eq!(normalize_timestamp("Za"), "Za");
    assert_eq!(normalize_timestamp(""), "");
    for given in ["2024-01-01T00:00:00Z", "ZZ", "aZbZ", "Zb", "z"] {
        let expected =
            if given.ends_with('Z') { given.replace('Z', "+00:00") } else { given.to_string() };
        assert_eq!(normalize_timestamp(given), expected);
    }
}

#[test]
fn timestamps_are_read_as_universal_time() {
    assert_eq!(
        parse_timestamp(&text("2024-01-01T00:00:00Z"), "created_at").unwrap(),
        Timestamp { seconds: 1_704_067_200, nanos: 0 }
    );
    assert_eq!(
        parse_timestamp(&text("2024-01-01T01:00:00.250+01:00"), "created_at").unwrap(),
        Timestamp { seconds: 1_704_067_200, nanos: 250_000_000 }
    );
    let expected: DateTime<Utc> = Utc.with_ymd_and_hms(2026, 2, 11, 8, 30, 15).unwrap();
    let parsed = parse_timestamp(&text("2026-02-11T08:30:15Z"), "updated_at").unwrap();
    assert_eq!(parsed.seconds, expected.timestamp());
    assert_eq!(parsed.nanos, expected.timestamp_subsec_nanos());
}

#[test]
fn timestamps_that_cannot_be_read_are_refused_by_field() {
    assert_eq!(message(parse_timestamp(&TimeField::Missing, "created_at")), "created_at is required");
    assert_eq!(message(parse_timestamp(&text(""), "created_at")), "created_at is required");
    assert_eq!(
        message(parse_timestamp(&TimeField::Other, "updated_at")),
        "updated_at must be a string"
    );
    assert_eq!(message(parse_timestamp(&text("yesterday"), "closed_at")), "invalid closed_at");
    assert_eq!(message(parse_timestamp(&text("2024-01-01"), "closed_at")), "invalid closed_at");
    assert_eq!(
        message(parse_timestamp(&text("2024-13-01T00:00:00Z"), "closed_at")),
        "invalid closed_at"
    );
}

#[test]
fn a_read_moment_is_handed_on_and_a_failed_reading_named() {
    let moment = Timestamp { seconds: 5, nanos: 6 };
    assert_eq!(timestamp_from(Some(moment), "created_at").unwrap(), moment);
    assert_eq!(message(timestamp_from(None, "created_at")), "invalid created_at");
}

#[test]
fn comments_are_converted_in_order() {
    let given = vec![
        comment(Some("ann"), Some("first"), text("2024-01-01T00:00:00Z")),
        comment(Some("bob"), Some("second"), text("2024-01-02T00:00:00Z")),
    ];
    let converted = convert_comments(Some(&given)).unwrap();
    assert_eq!(converted.len(), 2);
    assert_eq!(converted[0].author, "ann");
    assert_eq!(converted[0].text, "first");
    assert_eq!(converted[0].id, None);
    assert_eq!(converted[0].created_at, Timestamp { seconds: 1_704_067_200, nanos: 0 });
    assert_eq!(converted[1].author, "bob");
    assert_eq!(converted[1].created_at, Timestamp { seconds: 1_704_153_600, nanos: 0 });
    assert!(convert_comments(None).unwrap().is_empty());
    assert!(convert_comments(Some(&Vec::new())).unwrap().is_empty());
}

#[test]
fn the_first_bad_comment_fails_the_conversion() {
    let blank_author = vec![
        comment(Some("ann"), Some("fine"), text("2024-01-01T00:00:00Z")),
        comment(Some("  "), Some("text"), text("bad time")),
    ];
    assert_eq!(message(convert_comments(Some(&blank_author))), "invalid comment");
    let no_text = vec![comment(Some("ann"), None, text("2024-01-01T00:00:00Z"))];
    assert_eq!(message(convert_comments(Some(&no_text))), "invalid comment");
    let bad_time = vec![
        comment(Some("ann"), Some("text"), TimeField::Missing),
        comment(None, None, TimeField::Missing),
    ];
    assert_eq!(message(convert_comments(Some(&bad_time))), "comment.created_at is required");
    let unreadable = vec![comment(Some("ann"), Some("text"), text("soon"))];
    assert_eq!(message(convert_comments(Some(&unreadable))), "invalid comment.created_at");
}

#[test]
fn blocks_are_checked_by_their_kind() {
    assert!(validate_json(&block("json", "{\"a\": [1, 2]}")).is_ok());
    let reason = serde_json::from_str::<serde_json::Value>("{oops").unwrap_err().to_string();
    assert_eq!(
        message(validate_json(&block("json", "{oops"))),
        format!("invalid json in code block at line 4: {reason}")
    );
    assert!(validate_yaml(&block("yaml", "a: 1\nb:\n  - c\n")).is_ok());
    let reason = serde_yaml::from_str::<serde_yaml::Value>("a: [1").unwrap_err().to_string();
    assert_eq!(
        message(validate_yaml(&block("yaml", "a: [1"))),
        format!("invalid yaml in code block at line 4: {reason}")
    );
    assert!(validate_gherkin(&block("gherkin", "Feature: F\n  Scenario: S\n")).is_ok());
    assert!(validate_gherkin(&block("gherkin", "  Feature: F\n  Scenario Outline: S\n")).is_ok());
    assert_eq!(
        message(validate_gherkin(&block("gherkin", " \n"))),
        "invalid gherkin in code block at line 4: empty content"
    );
    assert_eq!(
        message(validate_gherkin(&block("gherkin", "Scenario: S\n"))),
        "invalid gherkin in code block at line 4: expected Feature keyword"
    );
    assert_eq!(
        message(validate_gherkin(&block("gherkin", "Feature: F\n"))),
        "invalid gherkin in code block at line 4: expected at least one Scenario"
    );
}

#[test]
fn a_finding_rejects_the_block_and_no_finding_passes_it() {
    assert!(block_verdict("json", 3, None).is_ok());
    assert_eq!(
        message(block_verdict("json", 3, Some("trailing comma".to_string()))),
        "invalid json in code block at line 3: trailing comma"
    );
    assert_eq!(
        message(Err::<(), KanbusError>(invalid_block_error("yaml", 12, "bad indent"))),
        "invalid yaml in code block at line 12: bad indent"
    );
}

#[test]
fn a_verdict_on_a_title_becomes_the_rule_s_result() {
    assert!(matches!(title_result("Fix it", "^Fix", Ok(true)), Ok(StepOutcome::Pass)));
    match title_result("Fix it", "^Add", Ok(false)) {
        Err(reason) => assert_eq!(reason, "title \"Fix it\" does not match pattern \"^Add\""),
        Ok(_) => panic!("expected a failure"),
    }
    match title_result("Fix it", "(", Err("unclosed group".to_string())) {
        Err(reason) => assert_eq!(reason, "invalid regex pattern: unclosed group"),
        Ok(_) => panic!("expected a failure"),
    }
}

#[test]
fn the_head_of_a_digest_is_cut_off() {
    assert_eq!(digest_head("0123456789abcdef", 6), "012345");
    assert_eq!(digest_head("0123456789abcdef", 12), "0123456789ab");
    assert_eq!(digest_head("0123456789abcdef", 0), "");
    assert_eq!(digest_head("0123", 6), "0123");
    assert_eq!(digest_head("", 6), "");
}
