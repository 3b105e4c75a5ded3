//! The client's side of the daemon: whether to use it, how to reach it,
//! and what to make of its answer.

use crate::daemon_protocol::{
    PayloadField,
    PayloadFieldView,
    PayloadValue,
    PayloadValueView,
    ResponseEnvelope,
    ResponseView,
};
use crate::error::{KanbusError, KanbusErrorView};
use crate::index::share;
use crate::models::{IssueData, IssueView};
use crate::text::{chars_of, owned, same_chars_ignoring_case, same_ignoring_case, same_text};
use std::sync::Arc;
use vstd::prelude::*;

verus! {

/// Whether the value of the switch that turns the daemon off says "off".
pub open spec fn says_off(value: Seq<char>) -> bool {
    same_ignoring_case(value, "1"@) || same_ignoring_case(value, "true"@) || same_ignoring_case(
        value,
        "yes"@,
    )
}

/// Whether daemon mode is on, given the current value of the switch that
/// turns it off (`None` where the switch is not set). The caller reads the
/// switch anew for every call.
pub fn is_daemon_enabled(switch: Option<&str>) -> (out: bool)
    ensures
        out == !(switch matches Some(value) && says_off(value@)),
{
    match switch {
        None => true,
        Some(value) => {
            let text = chars_of(value);
            let one = chars_of("1");
            let yes = chars_of("yes");
            let truth = chars_of("true");
            !(same_chars_ignoring_case(&text, &one) || same_chars_ignoring_case(&text, &truth)
                || same_chars_ignoring_case(&text, &yes))
        },
    }
}

/// Where the client stands in its attempt to get one request answered.
#[derive(Debug, Clone, Copy, PartialEq, Eq, Structural)]
pub enum ClientPhase {
    /// Looking whether the socket file exists, before anything was spawned.
    Checking,
    /// Starting a daemon.
    Spawning,
    /// Looking whether the spawned daemon's socket file has appeared.
    Polling,
    /// Sleeping between two looks.
    Sleeping,
    /// Connected or connecting: sending the request and reading the answer.
    Exchanging,
    /// Removing a socket file that nobody listens on.
    Cleaning,
    /// The attempt is over.
    Finished,
}

/// The client's state: its phase, how many more times it may sleep while
/// waiting for a socket, and whether it has used up its one retry.
#[derive(Debug, Clone, Copy, PartialEq, Eq, Structural)]
pub struct ClientState {
    pub phase: ClientPhase,
    pub polls_left: u32,
    pub poll_limit: u32,
    pub retried: bool,
}

/// What the outside world reports back to the client.
#[derive(Debug, Clone, Copy, PartialEq, Eq, Structural)]
pub enum ClientEvent {
    /// The socket file exists.
    SocketPresent,
    /// The socket file does not exist.
    SocketAbsent,
    /// A daemon process was started.
    Spawned,
    /// No daemon process could be started.
    SpawnFailed,
    /// The sleep is over.
    Slept,
    /// One response line was read.
    Answered,
    /// Connecting, sending or reading failed.
    TransportFailed,
    /// The socket file is gone.
    SocketRemoved,
}

/// Why an attempt ended without an answer.
#[derive(Debug, Clone, Copy, PartialEq, Eq, Structural)]
pub enum ClientFailure {
    /// No daemon process could be started.
    SpawnFailed,
    /// The spawned daemon's socket did not appear in time.
    SocketTimeout,
    /// The transport failed, also after the one retry.
    Transport,
    /// An event came that has no meaning in the current phase.
    OutOfTurn,
}

/// What the client asks the outside world to do next.
#[derive(Debug, Clone, Copy, PartialEq, Eq, Structural)]
pub enum ClientAction {
    /// Look whether the socket file exists.
    CheckSocket,
    /// Start a daemon for the root.
    SpawnDaemon,
    /// Sleep a short while.
    Sleep,
    /// Connect, send the request with its line feed, read one line.
    Exchange,
    /// Delete the socket file.
    RemoveSocket,
    /// Hand the response line to the caller.
    Deliver,
    /// Give up with this failure.
    Fail(ClientFailure),
}

/// The number of times the client looks again for a spawned daemon's socket
/// unless told otherwise.
pub const DEFAULT_POLL_LIMIT: u32 = 20;

/// The state in which an attempt starts; its first action is `CheckSocket`.
pub open spec fn initial_state(poll_limit: u32) -> ClientState {
    ClientState { phase: ClientPhase::Checking, polls_left: poll_limit, poll_limit, retried: false }
}

/// The state after the attempt has ended.
pub open spec fn finished(state: ClientState) -> ClientState {
    ClientState { phase: ClientPhase::Finished, ..state }
}

/// The state with another phase.
pub open spec fn in_phase(state: ClientState, phase: ClientPhase) -> ClientState {
    ClientState { phase, ..state }
}

/// The client's rule: the state and the action that follow `state` on
/// `event`.
pub open spec fn client_next(state: ClientState, event: ClientEvent) -> (ClientState, ClientAction) {
    match (state.phase, event) {
        (ClientPhase::Checking, ClientEvent::SocketPresent) => (
            in_phase(state, ClientPhase::Exchanging),
            ClientAction::Exchange,
        ),
        (ClientPhase::Checking, ClientEvent::SocketAbsent) => (
            in_phase(state, ClientPhase::Spawning),
            ClientAction::SpawnDaemon,
        ),
        (ClientPhase::Spawning, ClientEvent::Spawned) => (
            in_phase(state, ClientPhase::Polling),
            ClientAction::CheckSocket,
        ),
        (ClientPhase::Spawning, ClientEvent::SpawnFailed) => (
            finished(state),
            ClientAction::Fail(ClientFailure::SpawnFailed),
        ),
        (ClientPhase::Polling, ClientEvent::SocketPresent) => (
            in_phase(state, ClientPhase::Exchanging),
            ClientAction::Exchange,
        ),
        (ClientPhase::Polling, ClientEvent::SocketAbsent) => if state.polls_left > 0 {
            (
                ClientState {
                    phase: ClientPhase::Sleeping,
                    polls_left: (state.polls_left - 1) as u32,
                    ..state
                },
                ClientAction::Sleep,
            )
        } else {
            (finished(state), ClientAction::Fail(ClientFailure::SocketTimeout))
        },
        (ClientPhase::Sleeping, ClientEvent::Slept) => (
            in_phase(state, ClientPhase::Polling),
            ClientAction::CheckSocket,
        ),
        (ClientPhase::Exchanging, ClientEvent::Answered) => (finished(state), ClientAction::Deliver),
        (ClientPhase::Exchanging, ClientEvent::TransportFailed) => if state.retried {
            (finished(state), ClientAction::Fail(ClientFailure::Transport))
        } else {
            (
                ClientState {
                    phase: ClientPhase::Cleaning,
                    polls_left: state.poll_limit,
                    retried: true,
                    ..state
                },
                ClientAction::RemoveSocket,
            )
        },
        (ClientPhase::Cleaning, ClientEvent::SocketRemoved) => (
            in_phase(state, ClientPhase::Spawning),
            ClientAction::SpawnDaemon,
        ),
        _ => (finished(state), ClientAction::Fail(ClientFailure::OutOfTurn)),
    }
}

/// Starts an attempt that may look up to `poll_limit` more times for the
/// socket of a daemon it spawned. The first thing to do is `CheckSocket`.
pub fn client_start(poll_limit: u32) -> (out: (ClientState, ClientAction))
    ensures
        out.0 == initial_state(poll_limit),
        out.1 == ClientAction::CheckSocket,
{
    (
        ClientState {
            phase: ClientPhase::Checking,
            polls_left: poll_limit,
            poll_limit,
            retried: false,
        },
        ClientAction::CheckSocket,
    )
}

/// Moves the attempt on by one event.
pub fn client_step(state: ClientState, event: ClientEvent) -> (out: (ClientState, ClientAction))
    ensures
        out == client_next(state, event),
{
    let done = ClientState { phase: ClientPhase::Finished, ..state };
    match (state.phase, event) {
        (ClientPhase::Checking, ClientEvent::SocketPresent) => (
            ClientState { phase: ClientPhase::Exchanging, ..state },
            ClientAction::Exchange,
        ),
        (ClientPhase::Checking, ClientEvent::SocketAbsent) => (
            ClientState { phase: ClientPhase::Spawning, ..state },
            ClientAction::SpawnDaemon,
        ),
        (ClientPhase::Spawning, ClientEvent::Spawned) => (
            ClientState { phase: ClientPhase::Polling, ..state },
            ClientAction::CheckSocket,
        ),
        (ClientPhase::Spawning, ClientEvent::SpawnFailed) => (
            done,
            ClientAction::Fail(ClientFailure::SpawnFailed),
        ),
        (ClientPhase::Polling, ClientEvent::SocketPresent) => (
            ClientState { phase: ClientPhase::Exchanging, ..state },
            ClientAction::Exchange,
        ),
        (ClientPhase::Polling, ClientEvent::SocketAbsent) => {
            if state.polls_left > 0 {
                (
                    ClientState {
                        phase: ClientPhase::Sleeping,
                        polls_left: state.polls_left - 1,
                        ..state
                    },
                    ClientAction::Sleep,
                )
            } else {
                (done, ClientAction::Fail(ClientFailure::SocketTimeout))
            }
        },
        (ClientPhase::Sleeping, ClientEvent::Slept) => (
            ClientState { phase: ClientPhase::Polling, ..state },
            ClientAction::CheckSocket,
        ),
        (ClientPhase::Exchanging, ClientEvent::Answered) => (done, ClientAction::Deliver),
        (ClientPhase::Exchanging, ClientEvent::TransportFailed) => {
            if state.retried {
                (done, ClientAction::Fail(ClientFailure::Transport))
            } else {
                (
                    ClientState {
                        phase: ClientPhase::Cleaning,
                        polls_left: state.poll_limit,
                        retried: true,
                        ..state
                    },
                    ClientAction::RemoveSocket,
                )
            }
        },
        (ClientPhase::Cleaning, ClientEvent::SocketRemoved) => (
            ClientState { phase: ClientPhase::Spawning, ..state },
            ClientAction::SpawnDaemon,
        ),
        _ => (done, ClientAction::Fail(ClientFailure::OutOfTurn)),
    }
}

/// How many more steps an attempt in `state` can take at most.
pub open spec fn steps_left(state: ClientState) -> nat {
    let round: nat = (2 * state.poll_limit + 5) as nat;
    let later: nat = if state.retried {
        0
    } else {
        round
    };
    match state.phase {
        ClientPhase::Finished => 0,
        ClientPhase::Exchanging => 1 + later,
        ClientPhase::Polling => (2 * state.polls_left + 2 + later) as nat,
        ClientPhase::Sleeping => (2 * state.polls_left + 3 + later) as nat,
        ClientPhase::Spawning => (2 * state.polls_left + 3 + later) as nat,
        ClientPhase::Checking => (2 * state.polls_left + 4 + later) as nat,
        ClientPhase::Cleaning => (2 * state.polls_left + 4) as nat,
    }
}

/// Whether `state` can come up in an attempt: the polls left never exceed
/// the limit, and cleaning happens only in the retry.
pub open spec fn reachable(state: ClientState) -> bool {
    state.polls_left <= state.poll_limit && (state.phase == ClientPhase::Cleaning ==> state.retried)
}

/// Every step brings the attempt nearer to its end, whatever the outside
/// world reports: an attempt never goes on forever.
pub proof fn law_client_terminates(state: ClientState, event: ClientEvent)
    requires
        reachable(state),
        state.phase != ClientPhase::Finished,
    ensures
        reachable(client_next(state, event).0),
        steps_left(client_next(state, event).0) < steps_left(state),
{
}

/// An attempt ends exactly when the action is to deliver or to fail.
pub proof fn law_client_ends(state: ClientState, event: ClientEvent)
    ensures
        client_next(state, event).0.phase == ClientPhase::Finished <==> (client_next(
            state,
            event,
        ).1 == ClientAction::Deliver || client_next(state, event).1 is Fail),
{
}

/// A failed transport is answered by removing the socket and spawning anew
/// once; when the transport fails again the attempt fails.
pub proof fn law_one_retry(state: ClientState)
    requires
        state.phase == ClientPhase::Exchanging,
    ensures
        !state.retried ==> client_next(state, ClientEvent::TransportFailed).1
            == ClientAction::RemoveSocket && client_next(
            state,
            ClientEvent::TransportFailed,
        ).0.retried,
        state.retried ==> client_next(state, ClientEvent::TransportFailed).1 == ClientAction::Fail(
            ClientFailure::Transport,
        ),
{
}

/// Waiting for a spawned daemon's socket is bounded: when no poll is left
/// and the socket is still absent, the attempt fails.
pub proof fn law_bounded_wait(state: ClientState)
    requires
        state.phase == ClientPhase::Polling,
        state.polls_left == 0,
    ensures
        client_next(state, ClientEvent::SocketAbsent).1 == ClientAction::Fail(
            ClientFailure::SocketTimeout,
        ),
{
}

/// The text with which an attempt's failure is reported.
pub open spec fn failure_text(failure: ClientFailure) -> Seq<char> {
    match failure {
        ClientFailure::SpawnFailed => "daemon spawn failed"@,
        ClientFailure::SocketTimeout => "daemon connection failed"@,
        ClientFailure::Transport => "daemon connection failed"@,
        ClientFailure::OutOfTurn => "daemon client out of turn"@,
    }
}

/// The error with which an attempt's failure is reported.
pub fn failure_error(failure: ClientFailure) -> (out: KanbusError)
    ensures
        out@ == KanbusErrorView::IssueOperation(failure_text(failure)),
{
    match failure {
        ClientFailure::SpawnFailed => KanbusError::IssueOperation(owned("daemon spawn failed")),
        ClientFailure::SocketTimeout => KanbusError::IssueOperation(
            owned("daemon connection failed"),
        ),
        ClientFailure::Transport => KanbusError::IssueOperation(owned("daemon connection failed")),
        ClientFailure::OutOfTurn => KanbusError::IssueOperation(
            owned("daemon client out of turn"),
        ),
    }
}

/// What a daemon reported when it answered with an error.
pub struct DaemonFailure {
    pub code: String,
    pub message: String,
}

/// Mathematical content of [`DaemonFailure`].
pub struct DaemonFailureView {
    pub code: Seq<char>,
    pub message: Seq<char>,
}

impl View for DaemonFailure {
    type V = DaemonFailureView;

    open spec fn view(&self) -> DaemonFailureView {
        DaemonFailureView { code: self.code@, message: self.message@ }
    }
}

impl DaemonFailure {
    /// The failure as an error of the tracker: it carries the daemon's message.
    pub fn into_error(self) -> (out: KanbusError)
        ensures
            out@ == KanbusErrorView::IssueOperation(self@.message),
    {
        KanbusError::IssueOperation(self.message)
    }
}

/// What a response comes to for the client: its result where the status is
/// `ok` (an empty one where the daemon sent none), else the daemon's code and
/// message (`internal_error` and `daemon error` where it sent none).
pub open spec fn outcome_of(response: ResponseView) -> Result<
    Seq<PayloadFieldView>,
    DaemonFailureView,
> {
    if response.status == "ok"@ {
        match response.result {
            Some(fields) => Ok(fields),
            None => Ok(Seq::empty()),
        }
    } else {
        match response.error {
            Some(error) => Err(DaemonFailureView { code: error.code, message: error.message }),
            None => Err(DaemonFailureView { code: "internal_error"@, message: "daemon error"@ }),
        }
    }
}

/// Reads a response as the client does.
pub fn response_outcome(response: ResponseEnvelope) -> (out: Result<
    Vec<PayloadField>,
    DaemonFailure,
>)
    ensures
        match outcome_of(response@) {
            Ok(fields) => out matches Ok(result) && result.deep_view() == fields,
            Err(failure) => out matches Err(e) && e@ == failure,
        },
{
    if same_text(response.status.as_str(), "ok") {
        match response.result {
            Some(fields) => Ok(fields),
            None => {
                let fields: Vec<PayloadField> = Vec::new();
                proof {
                    assert(fields.deep_view() =~= Seq::<PayloadFieldView>::empty());
                }
                Ok(fields)
            },
        }
    } else {
        match response.error {
            Some(error) => Err(DaemonFailure { code: error.code, message: error.message }),
            None => Err(
                DaemonFailure { code: owned("internal_error"), message: owned("daemon error") },
            ),
        }
    }
}

/// The issues that a result lists: those of its first `issues` field that
/// holds a list, or none where there is no such field.
pub open spec fn issues_in(fields: Seq<PayloadFieldView>) -> Seq<IssueView>
    decreases fields.len(),
{
    if fields.len() == 0 {
        Seq::empty()
    } else {
        match fields[0].value {
            PayloadValueView::Issues(issues) if fields[0].name == "issues"@ => issues,
            _ => issues_in(fields.drop_first()),
        }
    }
}

/// The issues that the result of an `index.list` request lists. A result
/// without them gives an empty list.
pub fn issues_of(fields: &Vec<PayloadField>) -> (out: Vec<Arc<IssueData>>)
    ensures
        out.deep_view() == issues_in(fields.deep_view()),
{
    let mut i: usize = 0;
    proof {
        assert(fields.deep_view().skip(0) == fields.deep_view());
    }
    while i < fields.len()
        invariant
            i <= fields.len(),
            issues_in(fields.deep_view()) == issues_in(fields.deep_view().skip(i as int)),
        decreases fields.len() - i,
    {
        let ghost rest = fields.deep_view().skip(i as int);
        proof {
            assert(rest[0] == fields@[i as int]@);
            assert(rest.drop_first() =~= fields.deep_view().skip(i + 1));
        }
        if same_text(fields[i].name.as_str(), "issues") {
            match &fields[i].value {
                PayloadValue::Issues(issues) => {
                    return share_all(issues);
                },
                _ => {},
            }
        }
        i += 1;
    }
    let out: Vec<Arc<IssueData>> = Vec::new();
    proof {
        assert(fields.deep_view().skip(fields.len() as int) =~= Seq::<PayloadFieldView>::empty());
        assert(out.deep_view() =~= Seq::<IssueView>::empty());
    }
    out
}

/// Further handles to each of `issues`.
fn share_all(issues: &Vec<Arc<IssueData>>) -> (out: Vec<Arc<IssueData>>)
    ensures
        out.deep_view() == issues.deep_view(),
{
    let mut out: Vec<Arc<IssueData>> = Vec::new();
    let mut i: usize = 0;
    while i < issues.len()
        invariant
            i <= issues.len(),
            out.deep_view() == issues.deep_view().take(i as int),
        decreases issues.len() - i,
    {
        let ghost before = out.deep_view();
        out.push(share(&issues[i]));
        proof {
            assert(out.deep_view() =~= before.push(issues@[i as int]@));
            assert(issues.deep_view().take(i + 1) =~= before.push(issues@[i as int]@));
        }
        i += 1;
    }
    proof {
        assert(issues.deep_view().take(issues.len() as int) == issues.deep_view());
    }
    out
}

} // verus!
