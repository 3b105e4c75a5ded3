//! What the daemon answers to each request, and the states it moves through.

use crate::daemon_protocol::{
    check_compatibility, compatibility, error_response, error_view, ok_response, ok_view,
    Compatibility, ErrorCode, PayloadField, PayloadFieldView, PayloadValue, PayloadValueView,
    RequestEnvelope, RequestView, ResponseEnvelope, ResponseView, PROTOCOL_VERSION,
};
use crate::error::{KanbusError, KanbusErrorView};
use crate::index::{share, IssueIndex};
use crate::models::{IssueData, IssueView};
use crate::text::{owned, same_text};
use std::sync::Arc;
use vstd::prelude::*;

verus! {

/// The operations a daemon knows, with one more for every other name.
#[derive(Debug, Clone, Copy, PartialEq, Eq, Structural)]
pub enum Action {
    Ping,
    Status,
    IndexList,
    Shutdown,
    Unknown,
}

/// The operation that the action name `name` stands for.
pub open spec fn action_of(name: Seq<char>) -> Action {
    if name == "ping"@ {
        Action::Ping
    } else if name == "status"@ {
        Action::Status
    } else if name == "index.list"@ {
        Action::IndexList
    } else if name == "shutdown"@ {
        Action::Shutdown
    } else {
        Action::Unknown
    }
}

/// Reads an action name.
pub fn parse_action(name: &str) -> (out: Action)
    ensures
        out == action_of(name@),
{
    if same_text(name, "ping") {
        Action::Ping
    } else if same_text(name, "status") {
        Action::Status
    } else if same_text(name, "index.list") {
        Action::IndexList
    } else if same_text(name, "shutdown") {
        Action::Shutdown
    } else {
        Action::Unknown
    }
}

/// Whether a request is taken up, and if not, why.
pub enum Admission {
    /// The request is answered with this error.
    Refused(ErrorCode, Seq<char>),
    /// The request is served as this action, which is never `Unknown`.
    Admitted(Action),
}

/// The admission rule: the protocol version is checked first, then the
/// action.
pub open spec fn admission(request: RequestView) -> Admission {
    match compatibility(request.protocol_version, PROTOCOL_VERSION@) {
        Compatibility::Invalid => Admission::Refused(
            ErrorCode::InvalidRequest,
            "invalid protocol version"@,
        ),
        Compatibility::Mismatch => Admission::Refused(
            ErrorCode::ProtocolMismatch,
            "protocol version mismatch"@,
        ),
        Compatibility::Unsupported => Admission::Refused(
            ErrorCode::ProtocolUnsupported,
            "protocol version unsupported"@,
        ),
        Compatibility::Compatible => match action_of(request.action) {
            Action::Unknown => Admission::Refused(ErrorCode::UnknownAction, "unknown action"@),
            action => Admission::Admitted(action),
        },
    }
}

/// A result field that holds text.
pub open spec fn text_field(name: Seq<char>, value: Seq<char>) -> PayloadFieldView {
    PayloadFieldView { name, value: PayloadValueView::Text(value) }
}

/// The result field that holds the listed issues.
pub open spec fn issues_field(issues: Seq<IssueView>) -> PayloadFieldView {
    PayloadFieldView { name: "issues"@, value: PayloadValueView::Issues(issues) }
}

/// The response to `request` from a daemon that serves `root`. `issues` is
/// what loading the project's index came to; it is looked at for `index.list`
/// alone.
pub open spec fn response_for(
    root: Seq<char>,
    request: RequestView,
    issues: Result<Seq<IssueView>, KanbusErrorView>,
) -> ResponseView {
    match admission(request) {
        Admission::Refused(code, message) => error_view(request.request_id, code, message),
        Admission::Admitted(Action::Ping) => ok_view(
            request.request_id,
            seq![text_field("status"@, "ok"@)],
        ),
        Admission::Admitted(Action::Status) => ok_view(
            request.request_id,
            seq![
                text_field("status"@, "ok"@),
                text_field("root"@, root),
                text_field("protocol_version"@, PROTOCOL_VERSION@),
            ],
        ),
        Admission::Admitted(Action::Shutdown) => ok_view(
            request.request_id,
            seq![text_field("status"@, "stopping"@)],
        ),
        Admission::Admitted(_) => match issues {
            Ok(list) => ok_view(request.request_id, seq![issues_field(list)]),
            Err(error) => error_view(request.request_id, ErrorCode::InternalError, error.text()),
        },
    }
}

/// The issues of an index in ascending order of identifier.
pub open spec fn listed(index: IssueIndex) -> Seq<IssueView> {
    Seq::new(index.by_id.keys().len(), |i: int| index.by_id.at(index.by_id.keys()[i])@)
}

/// What loading the index came to, as `response_for` takes it.
pub open spec fn loaded_issues(loaded: Result<IssueIndex, KanbusError>) -> Result<
    Seq<IssueView>,
    KanbusErrorView,
> {
    match loaded {
        Ok(index) => Ok(listed(index)),
        Err(error) => Err(error@),
    }
}

/// What the daemon does with a request.
pub enum Dispatch {
    /// Send this response and go on serving.
    Reply(ResponseEnvelope),
    /// Send this response, then stop accepting and remove the socket.
    ReplyAndStop(ResponseEnvelope),
    /// Load the project's index, then answer with [`list_response`].
    ListIssues,
}

/// A text field of a result.
fn make_text_field(name: &str, value: &str) -> (out: PayloadField)
    ensures
        out@ == text_field(name@, value@),
{
    PayloadField { name: owned(name), value: PayloadValue::Text(owned(value)) }
}

/// Decides what to do with `request`, without touching the index.
pub fn dispatch_request(root: &str, request: &RequestEnvelope) -> (out: Dispatch)
    ensures
        match admission(request@) {
            Admission::Admitted(Action::IndexList) => out is ListIssues,
            Admission::Admitted(Action::Shutdown) => out matches Dispatch::ReplyAndStop(r) && r@
                == response_for(root@, request@, Ok(Seq::empty())),
            _ => out matches Dispatch::Reply(r) && r@ == response_for(
                root@,
                request@,
                Ok(Seq::empty()),
            ),
        },
{
    let id = request.request_id.as_str();
    match check_compatibility(request.protocol_version.as_str(), PROTOCOL_VERSION) {
        Compatibility::Compatible => {},
        Compatibility::Invalid => {
            return Dispatch::Reply(
                error_response(id, ErrorCode::InvalidRequest, "invalid protocol version"),
            );
        },
        Compatibility::Mismatch => {
            return Dispatch::Reply(
                error_response(id, ErrorCode::ProtocolMismatch, "protocol version mismatch"),
            );
        },
        Compatibility::Unsupported => {
            return Dispatch::Reply(
                error_response(id, ErrorCode::ProtocolUnsupported, "protocol version unsupported"),
            );
        },
    }
    match parse_action(request.action.as_str()) {
        Action::Ping => {
            let mut result: Vec<PayloadField> = Vec::new();
            result.push(make_text_field("status", "ok"));
            proof {
                assert(result.deep_view() =~= seq![text_field("status"@, "ok"@)]);
            }
            Dispatch::Reply(ok_response(id, result))
        },
        Action::Status => {
            let mut result: Vec<PayloadField> = Vec::new();
            result.push(make_text_field("status", "ok"));
            result.push(make_text_field("root", root));
            result.push(make_text_field("protocol_version", PROTOCOL_VERSION));
            proof {
                assert(result.deep_view() =~= seq![
                    text_field("status"@, "ok"@),
                    text_field("root"@, root@),
                    text_field("protocol_version"@, PROTOCOL_VERSION@),
                ]);
            }
            Dispatch::Reply(ok_response(id, result))
        },
        Action::Shutdown => {
            let mut result: Vec<PayloadField> = Vec::new();
            result.push(make_text_field("status", "stopping"));
            proof {
                assert(result.deep_view() =~= seq![text_field("status"@, "stopping"@)]);
            }
            Dispatch::ReplyAndStop(ok_response(id, result))
        },
        Action::IndexList => Dispatch::ListIssues,
        Action::Unknown => Dispatch::Reply(
            error_response(id, ErrorCode::UnknownAction, "unknown action"),
        ),
    }
}

/// Handles to every issue of the index, in ascending order of identifier.
pub fn list_issues(index: &IssueIndex) -> (out: Vec<Arc<IssueData>>)
    ensures
        out.deep_view() == listed(*index),
{
    let mut out: Vec<Arc<IssueData>> = Vec::new();
    let count = index.by_id.len();
    let mut i: usize = 0;
    while i < count
        invariant
            i <= count,
            count == index.by_id.entries().len(),
            out.deep_view() == listed(*index).take(i as int),
        decreases count - i,
    {
        let ghost before = out.deep_view();
        let record = share(index.by_id.value_at(i));
        out.push(record);
        proof {
            assert(out.deep_view() =~= before.push(record@));
            assert(listed(*index).take(i + 1) =~= before.push(record@));
        }
        i += 1;
    }
    proof {
        assert(listed(*index).take(count as int) == listed(*index));
    }
    out
}

/// The answer to an `index.list` request, given what loading the index came
/// to. A project without issues gives an empty list, not an error.
pub fn list_response(request: &RequestEnvelope, loaded: &Result<IssueIndex, KanbusError>) -> (out:
    ResponseEnvelope)
    ensures
        out@ == (match loaded_issues(*loaded) {
            Ok(list) => ok_view(request@.request_id, seq![issues_field(list)]),
            Err(error) => error_view(request@.request_id, ErrorCode::InternalError, error.text()),
        }),
{
    let id = request.request_id.as_str();
    match loaded {
        Ok(index) => {
            let issues = list_issues(index);
            let mut result: Vec<PayloadField> = Vec::new();
            result.push(PayloadField { name: owned("issues"), value: PayloadValue::Issues(issues) });
            proof {
                assert(result.deep_view() =~= seq![issues_field(listed(*index))]);
            }
            ok_response(id, result)
        },
        Err(error) => {
            let message = error.to_string();
            error_response(id, ErrorCode::InternalError, message.as_str())
        },
    }
}

/// Answers `request` as the daemon that serves `root` does, with the index
/// already loaded (or failed to load) by the caller.
pub fn handle_request(
    root: &str,
    request: &RequestEnvelope,
    loaded: &Result<IssueIndex, KanbusError>,
) -> (out: ResponseEnvelope)
    ensures
        out@ == response_for(root@, request@, loaded_issues(*loaded)),
{
    match dispatch_request(root, request) {
        Dispatch::Reply(response) => response,
        Dispatch::ReplyAndStop(response) => response,
        Dispatch::ListIssues => list_response(request, loaded),
    }
}

/// The answer to a line that could not be read as a request. `request_id` is
/// the identifier if that much could be recovered from the line, and
/// `message` says what was wrong with it.
pub fn invalid_request_response(request_id: Option<&str>, message: &str) -> (out: ResponseEnvelope)
    ensures
        out@ == error_view(
            match request_id {
                Some(id) => id@,
                None => Seq::empty(),
            },
            ErrorCode::InvalidRequest,
            message@,
        ),
{
    match request_id {
        Some(id) => error_response(id, ErrorCode::InvalidRequest, message),
        None => {
            let empty = String::new();
            error_response(empty.as_str(), ErrorCode::InvalidRequest, message)
        },
    }
}

/// The states of a daemon process.
#[derive(Debug, Clone, Copy, PartialEq, Eq, Structural)]
pub enum ServerState {
    /// No process yet.
    NotRunning,
    /// The socket file is absent and the bind is in progress.
    Starting,
    /// The socket is bound and the accept loop runs.
    Listening,
    /// A shutdown request or a fatal accept error has come in.
    ShuttingDown,
    /// The socket file is removed and the process has ended.
    Terminated,
}

/// What can happen to a daemon process.
#[derive(Debug, Clone, Copy, PartialEq, Eq, Structural)]
pub enum ServerEvent {
    /// The process was launched and removed what lay at the socket path.
    Launched,
    /// The socket was bound.
    SocketBound,
    /// The bind failed: another daemon owns the path.
    BindFailed,
    /// A connection was served, well-formed or not, and it asked for no
    /// shutdown.
    RequestServed,
    /// A shutdown request was answered.
    ShutdownRequested,
    /// Accepting connections failed for good.
    AcceptFailed,
    /// The socket file was removed.
    SocketRemoved,
}

/// The state that follows `state` on `event`. An event that has no meaning
/// in a state leaves it as it is.
pub open spec fn next_state(state: ServerState, event: ServerEvent) -> ServerState {
    match (state, event) {
        (ServerState::NotRunning, ServerEvent::Launched) => ServerState::Starting,
        (ServerState::Starting, ServerEvent::SocketBound) => ServerState::Listening,
        (ServerState::Starting, ServerEvent::BindFailed) => ServerState::Terminated,
        (ServerState::Listening, ServerEvent::ShutdownRequested) => ServerState::ShuttingDown,
        (ServerState::Listening, ServerEvent::AcceptFailed) => ServerState::ShuttingDown,
        (ServerState::ShuttingDown, ServerEvent::SocketRemoved) => ServerState::Terminated,
        _ => state,
    }
}

/// Moves the daemon's state on by one event.
pub fn server_step(state: ServerState, event: ServerEvent) -> (out: ServerState)
    ensures
        out == next_state(state, event),
{
    match (state, event) {
        (ServerState::NotRunning, ServerEvent::Launched) => ServerState::Starting,
        (ServerState::Starting, ServerEvent::SocketBound) => ServerState::Listening,
        (ServerState::Starting, ServerEvent::BindFailed) => ServerState::Terminated,
        (ServerState::Listening, ServerEvent::ShutdownRequested) => ServerState::ShuttingDown,
        (ServerState::Listening, ServerEvent::AcceptFailed) => ServerState::ShuttingDown,
        (ServerState::ShuttingDown, ServerEvent::SocketRemoved) => ServerState::Terminated,
        _ => state,
    }
}

/// The event that serving one connection comes to: `None` stands for a line
/// that was no request.
pub open spec fn event_of(request: Option<RequestView>) -> ServerEvent {
    match request {
        Some(r) => if admission(r) == Admission::Admitted(Action::Shutdown) {
            ServerEvent::ShutdownRequested
        } else {
            ServerEvent::RequestServed
        },
        None => ServerEvent::RequestServed,
    }
}

/// The event that serving one connection comes to.
pub fn served_event(request: Option<&RequestEnvelope>) -> (out: ServerEvent)
    ensures
        out == event_of(
            match request {
                Some(r) => Some(r@),
                None => None,
            },
        ),
{
    match request {
        Some(r) => {
            match dispatch_request("", r) {
                Dispatch::ReplyAndStop(_) => ServerEvent::ShutdownRequested,
                _ => ServerEvent::RequestServed,
            }
        },
        None => ServerEvent::RequestServed,
    }
}

/// A listening daemon goes on listening whatever request it serves, unless
/// the request is an admitted shutdown: a malformed or refused request never
/// ends it.
pub proof fn law_only_shutdown_stops(request: Option<RequestView>)
    ensures
        next_state(ServerState::Listening, event_of(request)) == ServerState::Listening <==> !(
        request matches Some(r) && admission(r) == Admission::Admitted(Action::Shutdown)),
{
}

/// A terminated daemon stays terminated.
pub proof fn law_terminated_is_final(event: ServerEvent)
    ensures
        next_state(ServerState::Terminated, event) == ServerState::Terminated,
{
}

/// A daemon leaves `Listening` on a shutdown request or a failed accept and
/// on nothing else.
pub proof fn law_leaving_listening(event: ServerEvent)
    ensures
        next_state(ServerState::Listening, event) != ServerState::Listening <==> event
            == ServerEvent::ShutdownRequested || event == ServerEvent::AcceptFailed,
{
}

} // verus!
