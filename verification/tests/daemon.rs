use kanbus::daemon_client::{
    client_start, client_step, failure_error, is_daemon_enabled, issues_of, response_outcome,
    ClientAction, ClientEvent, ClientFailure, ClientPhase, DEFAULT_POLL_LIMIT,
};
use kanbus::daemon_paths::{get_console_state_path, get_daemon_socket_path, get_index_cache_path};
use kanbus::daemon_protocol::{
    build_request, error_response, frame_message, ok_response, take_message, ErrorCode,
    ErrorEnvelope, PayloadField, PayloadValue, RequestEnvelope, ResponseEnvelope, PROTOCOL_VERSION,
};
use kanbus::daemon_server::{
    dispatch_request, handle_request, invalid_request_response, list_response, parse_action,
    served_event, server_step, Action, Dispatch, ServerEvent, ServerState,
};
use kanbus::error::KanbusError;
use kanbus::index::{build_index, IssueIndex};
use kanbus::models::{IssueData, Timestamp};

fn issue(identifier: &str, status: &str) -> IssueData {
    let stamp = Timestamp { seconds: 1_770_768_000, nanos: 0 };
    IssueData {
        identifier: identifier.to_string(),
        title: "Title".to_string(),
        description: String::new(),
        issue_type: "task".to_string(),
        status: status.to_string(),
        priority: 2,
        assignee: None,
        creator: None,
        parent: None,
        labels: Vec::new(),
        dependencies: Vec::new(),
        comments: Vec::new(),
        created_at: stamp,
        updated_at: stamp,
        closed_at: None,
        custom: Vec::new(),
    }
}

fn request(version: &str, id: &str, action: &str) -> RequestEnvelope {
    RequestEnvelope {
        protocol_version: version.to_string(),
        request_id: id.to_string(),
        action: action.to_string(),
        payload: Vec::new(),
    }
}

fn loaded(issues: Vec<IssueData>) -> Result<IssueIndex, KanbusError> {
    Ok(build_index(issues))
}

fn error_code(response: &ResponseEnvelope) -> Option<String> {
    response.error.as_ref().map(|error| error.code.clone())
}

fn text_of(fields: &[PayloadField], name: &str) -> Option<String> {
    fields.iter().find(|field| field.name == name).and_then(|field| match &field.value {
        PayloadValue::Text(text) => Some(text.clone()),
        PayloadValue::Issues(_) => None,
    })
}

#[test]
fn ping_is_answered_with_ok() {
    let response = handle_request("/repo", &request(PROTOCOL_VERSION, "req-1", "ping"), &loaded(vec![]));
    assert_eq!(response.protocol_version, PROTOCOL_VERSION);
    assert_eq!(response.request_id, "req-1");
    assert_eq!(response.status, "ok");
    assert!(response.error.is_none());
    let result = response.result.unwrap();
    assert_eq!(text_of(&result, "status").as_deref(), Some("ok"));
}

#[test]
fn status_names_root_and_version() {
    let response = handle_request("/repo", &request("1.0", "req-s", "status"), &loaded(vec![]));
    let result = response.result.unwrap();
    assert_eq!(text_of(&result, "status").as_deref(), Some("ok"));
    assert_eq!(text_of(&result, "root").as_deref(), Some("/repo"));
    assert_eq!(text_of(&result, "protocol_version").as_deref(), Some(PROTOCOL_VERSION));
}

#[test]
fn index_list_returns_the_issues_in_order_of_identifier() {
    let index = loaded(vec![issue("tsk-b", "open"), issue("tsk-a", "closed")]);
    let response = handle_request("/repo", &request("1.0", "req-direct", "index.list"), &index);
    assert_eq!(response.status, "ok");
    let result = response.result.unwrap();
    assert_eq!(result.len(), 1);
    assert_eq!(result[0].name, "issues");
    let listed: Vec<String> = issues_of(&result).iter().map(|issue| issue.identifier.clone()).collect();
    assert_eq!(listed, vec!["tsk-a", "tsk-b"]);
}

#[test]
fn index_list_of_a_project_without_issues_is_an_empty_list() {
    let response = handle_request("/repo", &request("1.0", "req-6", "index.list"), &loaded(vec![]));
    assert_eq!(response.status, "ok");
    assert!(response.error.is_none());
    let result = response.result.unwrap();
    match &result[0].value {
        PayloadValue::Issues(issues) => assert!(issues.is_empty()),
        PayloadValue::Text(_) => panic!("issues must be a list"),
    }
}

#[test]
fn index_list_reports_a_failed_load_as_internal_error() {
    let failed: Result<IssueIndex, KanbusError> = Err(KanbusError::Io("permission denied".to_string()));
    let response = handle_request("/repo", &request("1.0", "req-7", "index.list"), &failed);
    assert_eq!(response.status, "error");
    assert!(response.result.is_none());
    let error = response.error.unwrap();
    assert_eq!(error.code, "internal_error");
    assert_eq!(error.message, "permission denied");
    let listed = list_response(&request("1.0", "req-8", "index.list"), &failed);
    assert_eq!(error_code(&listed).as_deref(), Some("internal_error"));
}

#[test]
fn unknown_action_is_refused_with_its_own_code() {
    let response = handle_request("/repo", &request("1.0", "req-2", "index.drop"), &loaded(vec![]));
    assert_eq!(response.status, "error");
    assert_eq!(response.request_id, "req-2");
    assert_eq!(error_code(&response).as_deref(), Some("unknown_action"));
}

#[test]
fn protocol_is_checked_before_the_action() {
    let mismatch = handle_request("/repo", &request("2.0", "req-1", "nonsense"), &loaded(vec![]));
    assert_eq!(error_code(&mismatch).as_deref(), Some("protocol_mismatch"));
    assert_eq!(mismatch.error.unwrap().message, "protocol version mismatch");
    let unsupported = handle_request("/repo", &request("1.2", "req-1", "ping"), &loaded(vec![]));
    assert_eq!(error_code(&unsupported).as_deref(), Some("protocol_unsupported"));
    assert_eq!(unsupported.error.unwrap().message, "protocol version unsupported");
    let invalid = handle_request("/repo", &request("one", "req-1", "ping"), &loaded(vec![]));
    assert_eq!(error_code(&invalid).as_deref(), Some("invalid_request"));
    assert_eq!(invalid.error.unwrap().message, "invalid protocol version");
}

#[test]
fn malformed_line_is_answered_and_the_daemon_goes_on() {
    let response = invalid_request_response(None, "expected ident at line 1 column 2");
    assert_eq!(response.status, "error");
    assert_eq!(response.request_id, "");
    assert_eq!(response.protocol_version, PROTOCOL_VERSION);
    assert_eq!(error_code(&response).as_deref(), Some("invalid_request"));
    let recovered = invalid_request_response(Some("req-9"), "missing field `action`");
    assert_eq!(recovered.request_id, "req-9");
    assert_eq!(recovered.error.unwrap().message, "missing field `action`");

    let state = server_step(ServerState::Listening, served_event(None));
    assert_eq!(state, ServerState::Listening);
    let next = handle_request("/repo", &request("1.0", "req-10", "ping"), &loaded(vec![]));
    assert_eq!(next.status, "ok");
    assert_eq!(server_step(state, served_event(Some(&request("1.0", "req-10", "ping")))), ServerState::Listening);
}

#[test]
fn shutdown_is_answered_and_then_stops_the_daemon() {
    let stop = request("1.0", "req-stop", "shutdown");
    match dispatch_request("/repo", &stop) {
        Dispatch::ReplyAndStop(response) => {
            assert_eq!(response.status, "ok");
            assert_eq!(text_of(&response.result.unwrap(), "status").as_deref(), Some("stopping"));
        }
        _ => panic!("shutdown must stop the daemon"),
    }
    assert_eq!(served_event(Some(&stop)), ServerEvent::ShutdownRequested);
    let state = server_step(ServerState::Listening, ServerEvent::ShutdownRequested);
    assert_eq!(state, ServerState::ShuttingDown);
    assert_eq!(server_step(state, ServerEvent::SocketRemoved), ServerState::Terminated);
    // A shutdown that is refused for its version stops nothing.
    assert_eq!(served_event(Some(&request("2.0", "x", "shutdown"))), ServerEvent::RequestServed);
}

#[test]
fn dispatch_leaves_index_list_to_the_loader() {
    assert!(matches!(dispatch_request("/repo", &request("1.0", "a", "index.list")), Dispatch::ListIssues));
    assert!(matches!(dispatch_request("/repo", &request("1.0", "a", "ping")), Dispatch::Reply(_)));
    assert!(matches!(dispatch_request("/repo", &request("3.0", "a", "index.list")), Dispatch::Reply(_)));
}

#[test]
fn actions_are_a_closed_set() {
    assert_eq!(parse_action("ping"), Action::Ping);
    assert_eq!(parse_action("status"), Action::Status);
    assert_eq!(parse_action("index.list"), Action::IndexList);
    assert_eq!(parse_action("shutdown"), Action::Shutdown);
    assert_eq!(parse_action("Ping"), Action::Unknown);
    assert_eq!(parse_action(""), Action::Unknown);
}

#[test]
fn daemon_states_follow_the_lifecycle() {
    let mut state = ServerState::NotRunning;
    state = server_step(state, ServerEvent::Launched);
    assert_eq!(state, ServerState::Starting);
    state = server_step(state, ServerEvent::SocketBound);
    assert_eq!(state, ServerState::Listening);
    state = server_step(state, ServerEvent::RequestServed);
    assert_eq!(state, ServerState::Listening);
    state = server_step(state, ServerEvent::AcceptFailed);
    assert_eq!(state, ServerState::ShuttingDown);
    state = server_step(state, ServerEvent::SocketRemoved);
    assert_eq!(state, ServerState::Terminated);
    assert_eq!(server_step(state, ServerEvent::Launched), ServerState::Terminated);
    assert_eq!(server_step(ServerState::Starting, ServerEvent::BindFailed), ServerState::Terminated);
    assert_eq!(server_step(ServerState::NotRunning, ServerEvent::SocketBound), ServerState::NotRunning);
}

#[test]
fn client_spawns_a_daemon_when_no_socket_is_there() {
    let (mut state, mut action) = client_start(DEFAULT_POLL_LIMIT);
    assert_eq!(action, ClientAction::CheckSocket);
    (state, action) = client_step(state, ClientEvent::SocketAbsent);
    assert_eq!(action, ClientAction::SpawnDaemon);
    (state, action) = client_step(state, ClientEvent::Spawned);
    assert_eq!(action, ClientAction::CheckSocket);
    (state, action) = client_step(state, ClientEvent::SocketAbsent);
    assert_eq!(action, ClientAction::Sleep);
    (state, action) = client_step(state, ClientEvent::Slept);
    assert_eq!(action, ClientAction::CheckSocket);
    (state, action) = client_step(state, ClientEvent::SocketPresent);
    assert_eq!(action, ClientAction::Exchange);
    (state, action) = client_step(state, ClientEvent::Answered);
    assert_eq!(action, ClientAction::Deliver);
    assert_eq!(state.phase, ClientPhase::Finished);
    assert!(!state.retried);
}

#[test]
fn client_repairs_a_stale_socket_once() {
    let (mut state, mut action) = client_start(3);
    (state, action) = client_step(state, ClientEvent::SocketPresent);
    assert_eq!(action, ClientAction::Exchange);
    (state, action) = client_step(state, ClientEvent::TransportFailed);
    assert_eq!(action, ClientAction::RemoveSocket);
    assert!(state.retried);
    (state, action) = client_step(state, ClientEvent::SocketRemoved);
    assert_eq!(action, ClientAction::SpawnDaemon);
    (state, action) = client_step(state, ClientEvent::Spawned);
    assert_eq!(action, ClientAction::CheckSocket);
    (state, action) = client_step(state, ClientEvent::SocketPresent);
    assert_eq!(action, ClientAction::Exchange);
    let (done, delivered) = client_step(state, ClientEvent::Answered);
    assert_eq!(delivered, ClientAction::Deliver);
    assert_eq!(done.phase, ClientPhase::Finished);
    // A second transport failure is surfaced.
    let (failed, failure) = client_step(state, ClientEvent::TransportFailed);
    assert_eq!(failure, ClientAction::Fail(ClientFailure::Transport));
    assert_eq!(failed.phase, ClientPhase::Finished);
    let _ = action;
}

#[test]
fn client_waits_a_bounded_time_for_the_socket() {
    let (mut state, _) = client_start(2);
    let (next, _) = client_step(state, ClientEvent::SocketAbsent);
    state = next;
    let (next, mut action) = client_step(state, ClientEvent::Spawned);
    state = next;
    let mut sleeps = 0;
    loop {
        assert_eq!(action, ClientAction::CheckSocket);
        let (after_check, verdict) = client_step(state, ClientEvent::SocketAbsent);
        state = after_check;
        if verdict == ClientAction::Fail(ClientFailure::SocketTimeout) {
            break;
        }
        assert_eq!(verdict, ClientAction::Sleep);
        sleeps += 1;
        let (after_sleep, next_action) = client_step(state, ClientEvent::Slept);
        state = after_sleep;
        action = next_action;
        assert!(sleeps <= 2);
    }
    assert_eq!(sleeps, 2);
    assert_eq!(state.phase, ClientPhase::Finished);
    assert_eq!(failure_error(ClientFailure::SocketTimeout).to_string(), "daemon connection failed");
}

#[test]
fn client_fails_on_events_out_of_turn_and_on_failed_spawn() {
    let (state, _) = client_start(1);
    let (_, action) = client_step(state, ClientEvent::Answered);
    assert_eq!(action, ClientAction::Fail(ClientFailure::OutOfTurn));
    let (spawning, _) = client_step(state, ClientEvent::SocketAbsent);
    let (_, failed) = client_step(spawning, ClientEvent::SpawnFailed);
    assert_eq!(failed, ClientAction::Fail(ClientFailure::SpawnFailed));
    assert_eq!(failure_error(ClientFailure::SpawnFailed).to_string(), "daemon spawn failed");
}

#[test]
fn daemon_switch_is_read_in_any_case_of_letters() {
    assert!(is_daemon_enabled(None));
    assert!(is_daemon_enabled(Some("0")));
    assert!(is_daemon_enabled(Some("")));
    assert!(is_daemon_enabled(Some("no")));
    assert!(!is_daemon_enabled(Some("1")));
    assert!(!is_daemon_enabled(Some("true")));
    assert!(!is_daemon_enabled(Some("TRUE")));
    assert!(!is_daemon_enabled(Some("Yes")));
    assert!(is_daemon_enabled(Some(" 1")));
}

#[test]
fn error_response_becomes_a_client_error_with_the_daemons_message() {
    let response = ResponseEnvelope {
        protocol_version: PROTOCOL_VERSION.to_string(),
        request_id: "req-3".to_string(),
        status: "error".to_string(),
        result: None,
        error: Some(ErrorEnvelope {
            code: "internal_error".to_string(),
            message: "daemon error".to_string(),
            details: Vec::new(),
        }),
    };
    match response_outcome(response) {
        Ok(_) => panic!("an error response is no success"),
        Err(failure) => {
            assert_eq!(failure.code, "internal_error");
            assert_eq!(failure.into_error().to_string(), "daemon error");
        }
    }
    let bare = ResponseEnvelope {
        protocol_version: PROTOCOL_VERSION.to_string(),
        request_id: "req-4".to_string(),
        status: "error".to_string(),
        result: None,
        error: None,
    };
    assert_eq!(response_outcome(bare).err().unwrap().message, "daemon error");
}

#[test]
fn list_response_without_issues_degrades_to_an_empty_list() {
    let response = ResponseEnvelope {
        protocol_version: PROTOCOL_VERSION.to_string(),
        request_id: "req-6".to_string(),
        status: "ok".to_string(),
        result: Some(Vec::new()),
        error: None,
    };
    let result = response_outcome(response).ok().unwrap();
    assert!(issues_of(&result).is_empty());
    let other = vec![PayloadField {
        name: "issues".to_string(),
        value: PayloadValue::Text("none".to_string()),
    }];
    assert!(issues_of(&other).is_empty());
    let none = ResponseEnvelope {
        protocol_version: PROTOCOL_VERSION.to_string(),
        request_id: "req-6".to_string(),
        status: "ok".to_string(),
        result: None,
        error: None,
    };
    assert!(response_outcome(none).ok().unwrap().is_empty());
}

#[test]
fn requests_carry_the_clients_version() {
    let built = build_request("req-42".to_string(), "index.list", Vec::new());
    assert_eq!(built.protocol_version, PROTOCOL_VERSION);
    assert_eq!(built.request_id, "req-42");
    assert_eq!(built.action, "index.list");
    assert!(built.payload.is_empty());
}

#[test]
fn responses_are_built_with_status_and_code() {
    let ok = ok_response("a", Vec::new());
    assert_eq!(ok.status, "ok");
    assert!(ok.error.is_none());
    assert!(ok.result.unwrap().is_empty());
    let error = error_response("b", ErrorCode::InternalError, "boom");
    assert_eq!(error.status, "error");
    assert!(error.result.is_none());
    assert_eq!(error.error.unwrap().code, "internal_error");
    assert_eq!(ErrorCode::InvalidRequest.as_str(), "invalid_request");
    assert_eq!(ErrorCode::ProtocolMismatch.as_str(), "protocol_mismatch");
    assert_eq!(ErrorCode::ProtocolUnsupported.as_str(), "protocol_unsupported");
    assert_eq!(ErrorCode::UnknownAction.as_str(), "unknown_action");
}

#[test]
fn messages_are_framed_one_per_line() {
    assert_eq!(frame_message("{\"a\":1}"), "{\"a\":1}\n");
    assert_eq!(take_message("{\"a\":1}\n{\"b\":2}\n").as_deref(), Some("{\"a\":1}"));
    assert_eq!(take_message("not-json\n").as_deref(), Some("not-json"));
    assert_eq!(take_message("\n").as_deref(), Some(""));
    assert!(take_message("{\"a\":").is_none());
    assert!(take_message("").is_none());
    assert_eq!(take_message(&frame_message("ping")).as_deref(), Some("ping"));
}

#[test]
fn cache_files_live_in_the_projects_cache_directory() {
    let found = vec!["/repo/project".to_string()];
    assert_eq!(get_daemon_socket_path(&found).unwrap(), "/repo/project/.cache/kanbus.sock");
    assert_eq!(get_index_cache_path(&found).unwrap(), "/repo/project/.cache/index.json");
    assert_eq!(get_console_state_path(&found).unwrap(), "/repo/project/.cache/console_state.json");
    let slashed = vec!["/repo/project/".to_string(), "/repo/project/".to_string()];
    assert_eq!(get_index_cache_path(&slashed).unwrap(), "/repo/project/.cache/index.json");
}

#[test]
fn socket_path_needs_exactly_one_project() {
    let none: Vec<String> = Vec::new();
    assert_eq!(get_daemon_socket_path(&none).unwrap_err().to_string(), "project not initialized");
    let two = vec!["/repo/a/project".to_string(), "/repo/b/project".to_string()];
    assert_eq!(get_daemon_socket_path(&two).unwrap_err().to_string(), "multiple projects found");
}
