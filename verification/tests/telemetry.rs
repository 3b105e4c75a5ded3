use kanbus::console_telemetry::{
    console_address, flatten_args, format_telemetry_line, notification_url, resolve_console_port,
    resolve_telemetry_url, ConsoleTelemetryEvent, DEFAULT_CONSOLE_PORT,
};
use kanbus::snyk_sync::{build_snippet, severity_to_priority};

fn event() -> ConsoleTelemetryEvent {
    ConsoleTelemetryEvent {
        level: None,
        message: None,
        args: None,
        timestamp: None,
        received_at: None,
        url: None,
        session_id: None,
    }
}

#[test]
fn the_console_port_defaults() {
    assert_eq!(DEFAULT_CONSOLE_PORT, 5174);
    assert_eq!(resolve_console_port(None), 5174);
    assert_eq!(resolve_console_port(Some(8080)), 8080);
    assert_eq!(resolve_console_port(Some(0)), 0);
}

#[test]
fn console_addresses_are_local() {
    assert_eq!(console_address(5174, "/x"), "http://127.0.0.1:5174/x");
    assert_eq!(notification_url(None), "http://127.0.0.1:5174/api/notifications");
    assert_eq!(notification_url(Some(65535)), "http://127.0.0.1:65535/api/notifications");
}

#[test]
fn a_given_telemetry_url_wins() {
    assert_eq!(
        resolve_telemetry_url(Some("http://example.test/stream".to_string()), Some(1)),
        "http://example.test/stream"
    );
    let by_port = resolve_telemetry_url(None, Some(9000));
    assert!(by_port.starts_with("http://127.0.0.1:9000/"));
    let by_default = resolve_telemetry_url(None, None);
    assert!(by_default.starts_with("http://127.0.0.1:5174/"));
    assert_eq!(&by_port["http://127.0.0.1:9000".len()..], &by_default["http://127.0.0.1:5174".len()..]);
}

#[test]
fn arguments_are_joined_by_spaces() {
    assert_eq!(flatten_args(&None), None);
    assert_eq!(flatten_args(&Some(Vec::new())), None);
    assert_eq!(
        flatten_args(&Some(vec!["a".to_string(), "1".to_string(), "{}".to_string()])),
        Some("a 1 {}".to_string())
    );
}

#[test]
fn an_unread_payload_is_marked() {
    assert_eq!(format_telemetry_line(None, "not-json"), "[unparsed] not-json");
}

#[test]
fn an_empty_event_falls_back_on_every_part() {
    assert_eq!(
        format_telemetry_line(Some(&event()), "{}"),
        "[unknown-time] [log] [unknown-session] {} (unknown-source)"
    );
}

#[test]
fn an_event_is_written_with_its_parts() {
    let mut full = event();
    full.level = Some("warn".to_string());
    full.message = Some("hello".to_string());
    full.args = Some(vec!["ignored".to_string()]);
    full.timestamp = Some("t1".to_string());
    full.received_at = Some("t2".to_string());
    full.url = Some("http://page".to_string());
    full.session_id = Some("s".to_string());
    assert_eq!(format_telemetry_line(Some(&full), "{..}"), "[t1] [warn] [s] hello (http://page)");
    full.message = None;
    full.timestamp = None;
    assert_eq!(format_telemetry_line(Some(&full), "{..}"), "[t2] [warn] [s] ignored (http://page)");
}

#[test]
fn severities_map_to_priorities() {
    assert_eq!(severity_to_priority("critical"), 0);
    assert_eq!(severity_to_priority("CRITICAL"), 0);
    assert_eq!(severity_to_priority("High"), 1);
    assert_eq!(severity_to_priority("medium"), 2);
    assert_eq!(severity_to_priority("low"), 3);
    assert_eq!(severity_to_priority(""), 3);
    assert_eq!(severity_to_priority("criticals"), 3);
}

#[test]
fn a_snippet_needs_a_line_and_a_file_with_lines() {
    assert_eq!(build_snippet("a\nb\n", "f.rs", None, Some(1)), None);
    assert_eq!(build_snippet("a\nb\n", "f.rs", Some(0), None), None);
    assert_eq!(build_snippet("a\nb\n", "f.rs", Some(1), Some(-1)), None);
    assert_eq!(build_snippet("", "f.rs", Some(1), None), None);
}

#[test]
fn a_snippet_shows_two_lines_of_context() {
    let content = "l1\nl2\nl3\nl4\nl5\nl6\nl7\n";
    assert_eq!(
        build_snippet(content, "src/f.rs", Some(4), None),
        Some(
            "### Snippet (src/f.rs:2-6)\n```\n   2 | l2\n   3 | l3\n   4 | l4\n   5 | l5\n   6 | l6\n```\n\n"
                .to_string()
        )
    );
    assert_eq!(
        build_snippet(content, "f", Some(1), Some(7)),
        Some(
            "### Snippet (f:1-7)\n```\n   1 | l1\n   2 | l2\n   3 | l3\n   4 | l4\n   5 | l5\n   6 | l6\n   7 | l7\n```\n\n"
                .to_string()
        )
    );
}

#[test]
fn a_snippet_holds_at_most_twenty_five_lines() {
    let content: String = (1..=2000).map(|n| format!("line {n}\n")).collect();
    let snippet = build_snippet(&content, "big", Some(1000), Some(1100)).unwrap();
    let lines: Vec<&str> = snippet.lines().collect();
    assert_eq!(lines[0], "### Snippet (big:998-1022)");
    assert_eq!(lines[1], "```");
    assert_eq!(lines[2], " 998 | line 998");
    assert_eq!(lines[4], "1000 | line 1000");
    assert_eq!(lines[26], "1022 | line 1022");
    assert_eq!(lines[27], "```");
    assert_eq!(lines.len(), 29);
}

#[test]
fn a_snippet_behind_the_last_line_is_empty() {
    assert_eq!(
        build_snippet("a\nb\n", "f", Some(10), None),
        Some("### Snippet (f:8-2)\n```\n```\n\n".to_string())
    );
}
