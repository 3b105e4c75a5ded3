//! Versioned request and response envelopes exchanged with the daemon.

use crate::decimal::{decimal_value, is_numeral, parse_decimal};
use crate::error::{KanbusError, KanbusErrorView};
use crate::lines::{first_index_of, lemma_first_index_of};
use crate::models::{IssueData, IssueView};
use crate::text::{chars_of, owned, slice_of, string_of};
use std::sync::Arc;
use vstd::prelude::*;

verus! {

/// The protocol version this build speaks, as `major.minor`.
pub const PROTOCOL_VERSION: &'static str = "1.0";

/// A parsed protocol version.
#[derive(Debug, Clone, Copy, PartialEq, Eq, Structural)]
pub struct ProtocolVersion {
    pub major: u64,
    pub minor: u64,
}

/// The two numbers that `s` writes as `major.minor`: a numeral, one dot, a
/// numeral, and nothing else.
pub open spec fn version_numbers(s: Seq<char>) -> Option<(nat, nat)> {
    let dot = first_index_of(s, '.');
    if 0 <= dot < s.len() && is_numeral(s.take(dot)) && is_numeral(s.skip(dot + 1)) {
        Some((decimal_value(s.take(dot)), decimal_value(s.skip(dot + 1))))
    } else {
        None
    }
}

/// The version that `s` writes, where both numbers fit in 64 bits.
pub open spec fn parsed_version(s: Seq<char>) -> Option<ProtocolVersion> {
    match version_numbers(s) {
        Some((major, minor)) => if major <= u64::MAX && minor <= u64::MAX {
            Some(ProtocolVersion { major: major as u64, minor: minor as u64 })
        } else {
            None
        },
        None => None,
    }
}

/// The error for a version string that cannot be read.
pub open spec fn invalid_version_error() -> KanbusErrorView {
    KanbusErrorView::ProtocolError("invalid protocol version"@)
}

/// The error for versions whose major numbers differ.
pub open spec fn mismatch_error() -> KanbusErrorView {
    KanbusErrorView::ProtocolError("protocol version mismatch"@)
}

/// The error for a client whose minor number is ahead of the daemon's.
pub open spec fn unsupported_error() -> KanbusErrorView {
    KanbusErrorView::ProtocolError("protocol version unsupported"@)
}

/// Reads a `major.minor` version string.
pub fn parse_version(version: &str) -> (out: Result<ProtocolVersion, KanbusError>)
    ensures
        match out {
            Ok(v) => parsed_version(version@) == Some(v),
            Err(e) => parsed_version(version@) is None && e@ == invalid_version_error(),
        },
{
    let text = chars_of(version);
    let mut dot: usize = 0;
    while dot < text.len() && text[dot] != '.'
        invariant
            dot <= text.len(),
            forall|j: int| 0 <= j < dot ==> #[trigger] text@[j] != '.',
        decreases text.len() - dot,
    {
        dot += 1;
    }
    proof {
        lemma_first_index_of(text@, '.', dot as int);
    }
    if dot == text.len() {
        return Err(KanbusError::ProtocolError(owned("invalid protocol version")));
    }
    let major_text = slice_of(&text, 0, dot);
    let minor_text = slice_of(&text, dot + 1, text.len());
    proof {
        assert(text@.subrange(0, dot as int) == text@.take(dot as int));
        assert(text@.subrange(dot + 1, text.len() as int) == text@.skip(dot + 1));
    }
    match (parse_decimal(&major_text), parse_decimal(&minor_text)) {
        (Some(major), Some(minor)) => Ok(ProtocolVersion { major, minor }),
        _ => Err(KanbusError::ProtocolError(owned("invalid protocol version"))),
    }
}

/// How a client version stands to a daemon version.
#[derive(Debug, Clone, Copy, PartialEq, Eq, Structural)]
pub enum Compatibility {
    /// Same major, client minor not ahead.
    Compatible,
    /// One of the two strings is no version.
    Invalid,
    /// The major numbers differ.
    Mismatch,
    /// Same major, client minor ahead of the daemon's.
    Unsupported,
}

/// The compatibility rule: both must parse; majors must agree; the client's
/// minor must not exceed the daemon's.
pub open spec fn compatibility(client: Seq<char>, daemon: Seq<char>) -> Compatibility {
    match (parsed_version(client), parsed_version(daemon)) {
        (Some(c), Some(d)) => if c.major != d.major {
            Compatibility::Mismatch
        } else if c.minor > d.minor {
            Compatibility::Unsupported
        } else {
            Compatibility::Compatible
        },
        _ => Compatibility::Invalid,
    }
}

/// Applies the compatibility rule to a client and a daemon version.
pub fn check_compatibility(client_version: &str, daemon_version: &str) -> (out: Compatibility)
    ensures
        out == compatibility(client_version@, daemon_version@),
{
    let client = match parse_version(client_version) {
        Ok(v) => v,
        Err(_) => {
            return Compatibility::Invalid;
        },
    };
    let daemon = match parse_version(daemon_version) {
        Ok(v) => v,
        Err(_) => {
            return Compatibility::Invalid;
        },
    };
    if client.major != daemon.major {
        Compatibility::Mismatch
    } else if client.minor > daemon.minor {
        Compatibility::Unsupported
    } else {
        Compatibility::Compatible
    }
}

/// What a failed version check is reported as.
pub open spec fn compatibility_error(outcome: Compatibility) -> Option<KanbusErrorView> {
    match outcome {
        Compatibility::Compatible => None,
        Compatibility::Invalid => Some(invalid_version_error()),
        Compatibility::Mismatch => Some(mismatch_error()),
        Compatibility::Unsupported => Some(unsupported_error()),
    }
}

/// Checks that a client speaking `client_version` can talk to a daemon
/// speaking `daemon_version`.
pub fn validate_protocol_compatibility(client_version: &str, daemon_version: &str) -> (out: Result<
    (),
    KanbusError,
>)
    ensures
        match compatibility_error(compatibility(client_version@, daemon_version@)) {
            None => out is Ok,
            Some(error) => out matches Err(e) && e@ == error,
        },
{
    match check_compatibility(client_version, daemon_version) {
        Compatibility::Compatible => Ok(()),
        Compatibility::Invalid => Err(
            KanbusError::ProtocolError(owned("invalid protocol version")),
        ),
        Compatibility::Mismatch => Err(
            KanbusError::ProtocolError(owned("protocol version mismatch")),
        ),
        Compatibility::Unsupported => Err(
            KanbusError::ProtocolError(owned("protocol version unsupported")),
        ),
    }
}

/// Every well-formed version is compatible with itself.
pub proof fn law_version_compatible_with_itself(version: Seq<char>)
    requires
        parsed_version(version) is Some,
    ensures
        compatibility(version, version) == Compatibility::Compatible,
{
}

/// A client may use any minor up to the daemon's: with equal majors,
/// compatibility holds exactly when the client's minor is not ahead.
pub proof fn law_minor_rule(client: Seq<char>, daemon: Seq<char>)
    requires
        parsed_version(client) is Some,
        parsed_version(daemon) is Some,
        parsed_version(client)->0.major == parsed_version(daemon)->0.major,
    ensures
        compatibility(client, daemon) == Compatibility::Compatible <==> parsed_version(
            client,
        )->0.minor <= parsed_version(daemon)->0.minor,
{
}

/// The stable error codes of the protocol.
#[derive(Debug, Clone, Copy, PartialEq, Eq, Structural)]
pub enum ErrorCode {
    /// The request could not be read as an envelope.
    InvalidRequest,
    /// Client and daemon differ in their major version.
    ProtocolMismatch,
    /// The client speaks a newer minor version than the daemon.
    ProtocolUnsupported,
    /// The action is not one the daemon knows.
    UnknownAction,
    /// The daemon failed while serving the request.
    InternalError,
}

impl ErrorCode {
    /// The code as it goes over the wire.
    pub open spec fn text(self) -> Seq<char> {
        match self {
            ErrorCode::InvalidRequest => "invalid_request"@,
            ErrorCode::ProtocolMismatch => "protocol_mismatch"@,
            ErrorCode::ProtocolUnsupported => "protocol_unsupported"@,
            ErrorCode::UnknownAction => "unknown_action"@,
            ErrorCode::InternalError => "internal_error"@,
        }
    }

    /// The code as it goes over the wire.
    pub fn as_str(&self) -> (out: &'static str)
        ensures
            out@ == self.text(),
    {
        match self {
            ErrorCode::InvalidRequest => "invalid_request",
            ErrorCode::ProtocolMismatch => "protocol_mismatch",
            ErrorCode::ProtocolUnsupported => "protocol_unsupported",
            ErrorCode::UnknownAction => "unknown_action",
            ErrorCode::InternalError => "internal_error",
        }
    }
}

/// A value carried in a payload or a result: text, or a list of issues.
pub enum PayloadValue {
    Text(String),
    Issues(Vec<Arc<IssueData>>),
}

/// Mathematical content of [`PayloadValue`].
pub enum PayloadValueView {
    Text(Seq<char>),
    Issues(Seq<IssueView>),
}

impl View for PayloadValue {
    type V = PayloadValueView;

    open spec fn view(&self) -> PayloadValueView {
        match self {
            PayloadValue::Text(text) => PayloadValueView::Text(text@),
            PayloadValue::Issues(issues) => PayloadValueView::Issues(issues.deep_view()),
        }
    }
}

/// One named value of a payload or a result.
pub struct PayloadField {
    pub name: String,
    pub value: PayloadValue,
}

/// Mathematical content of [`PayloadField`].
pub struct PayloadFieldView {
    pub name: Seq<char>,
    pub value: PayloadValueView,
}

impl View for PayloadField {
    type V = PayloadFieldView;

    open spec fn view(&self) -> PayloadFieldView {
        PayloadFieldView { name: self.name@, value: self.value@ }
    }
}

impl DeepView for PayloadField {
    type V = PayloadFieldView;

    open spec fn deep_view(&self) -> PayloadFieldView {
        self@
    }
}

/// A request as it goes to the daemon.
pub struct RequestEnvelope {
    pub protocol_version: String,
    pub request_id: String,
    pub action: String,
    pub payload: Vec<PayloadField>,
}

/// Mathematical content of [`RequestEnvelope`].
pub struct RequestView {
    pub protocol_version: Seq<char>,
    pub request_id: Seq<char>,
    pub action: Seq<char>,
    pub payload: Seq<PayloadFieldView>,
}

impl View for RequestEnvelope {
    type V = RequestView;

    open spec fn view(&self) -> RequestView {
        RequestView {
            protocol_version: self.protocol_version@,
            request_id: self.request_id@,
            action: self.action@,
            payload: self.payload.deep_view(),
        }
    }
}

/// The error part of a response.
pub struct ErrorEnvelope {
    pub code: String,
    pub message: String,
    pub details: Vec<PayloadField>,
}

/// Mathematical content of [`ErrorEnvelope`].
pub struct ErrorView {
    pub code: Seq<char>,
    pub message: Seq<char>,
    pub details: Seq<PayloadFieldView>,
}

impl View for ErrorEnvelope {
    type V = ErrorView;

    open spec fn view(&self) -> ErrorView {
        ErrorView { code: self.code@, message: self.message@, details: self.details.deep_view() }
    }
}

/// A response as it comes from the daemon.
pub struct ResponseEnvelope {
    pub protocol_version: String,
    pub request_id: String,
    pub status: String,
    pub result: Option<Vec<PayloadField>>,
    pub error: Option<ErrorEnvelope>,
}

/// Mathematical content of [`ResponseEnvelope`].
pub struct ResponseView {
    pub protocol_version: Seq<char>,
    pub request_id: Seq<char>,
    pub status: Seq<char>,
    pub result: Option<Seq<PayloadFieldView>>,
    pub error: Option<ErrorView>,
}

impl View for ResponseEnvelope {
    type V = ResponseView;

    open spec fn view(&self) -> ResponseView {
        ResponseView {
            protocol_version: self.protocol_version@,
            request_id: self.request_id@,
            status: self.status@,
            result: match self.result {
                Some(fields) => Some(fields.deep_view()),
                None => None,
            },
            error: match self.error {
                Some(error) => Some(error@),
                None => None,
            },
        }
    }
}

/// The response that reports success with `result`.
pub open spec fn ok_view(request_id: Seq<char>, result: Seq<PayloadFieldView>) -> ResponseView {
    ResponseView {
        protocol_version: PROTOCOL_VERSION@,
        request_id,
        status: "ok"@,
        result: Some(result),
        error: None,
    }
}

/// The response that reports the failure `code` with `message`.
pub open spec fn error_view(request_id: Seq<char>, code: ErrorCode, message: Seq<char>) -> ResponseView {
    ResponseView {
        protocol_version: PROTOCOL_VERSION@,
        request_id,
        status: "error"@,
        result: None,
        error: Some(ErrorView { code: code.text(), message, details: Seq::empty() }),
    }
}

/// Builds the response that reports success with `result`.
pub fn ok_response(request_id: &str, result: Vec<PayloadField>) -> (out: ResponseEnvelope)
    ensures
        out@ == ok_view(request_id@, result.deep_view()),
{
    ResponseEnvelope {
        protocol_version: owned(PROTOCOL_VERSION),
        request_id: owned(request_id),
        status: owned("ok"),
        result: Some(result),
        error: None,
    }
}

/// Builds the response that reports the failure `code` with `message`.
pub fn error_response(request_id: &str, code: ErrorCode, message: &str) -> (out: ResponseEnvelope)
    ensures
        out@ == error_view(request_id@, code, message@),
{
    let details: Vec<PayloadField> = Vec::new();
    proof {
        assert(details.deep_view() =~= Seq::<PayloadFieldView>::empty());
    }
    ResponseEnvelope {
        protocol_version: owned(PROTOCOL_VERSION),
        request_id: owned(request_id),
        status: owned("error"),
        result: None,
        error: Some(
            ErrorEnvelope { code: owned(code.as_str()), message: owned(message), details },
        ),
    }
}

/// Builds the request for `action` that a client of this build sends.
pub fn build_request(request_id: String, action: &str, payload: Vec<PayloadField>) -> (out:
    RequestEnvelope)
    ensures
        out@ == (RequestView {
            protocol_version: PROTOCOL_VERSION@,
            request_id: request_id@,
            action: action@,
            payload: payload.deep_view(),
        }),
{
    RequestEnvelope {
        protocol_version: owned(PROTOCOL_VERSION),
        request_id,
        action: owned(action),
        payload,
    }
}

/// A message as it is framed on the wire: its text, then one line feed.
pub open spec fn framed(message: Seq<char>) -> Seq<char> {
    message.push('\n')
}

/// Frames an encoded message for sending.
pub fn frame_message(message: &str) -> (out: String)
    ensures
        out@ == framed(message@),
{
    let mut text = chars_of(message);
    text.push('\n');
    string_of(&text)
}

/// The first message in what has been received so far: the text before the
/// first line feed, or nothing while no line feed has come.
pub open spec fn first_message(received: Seq<char>) -> Option<Seq<char>> {
    let end = first_index_of(received, '\n');
    if 0 <= end < received.len() {
        Some(received.take(end))
    } else {
        None
    }
}

/// Takes the first message out of what has been received so far.
pub fn take_message(received: &str) -> (out: Option<String>)
    ensures
        match first_message(received@) {
            Some(message) => out matches Some(text) && text@ == message,
            None => out is None,
        },
{
    let text = chars_of(received);
    let mut end: usize = 0;
    while end < text.len() && text[end] != '\n'
        invariant
            end <= text.len(),
            forall|j: int| 0 <= j < end ==> #[trigger] text@[j] != '\n',
        decreases text.len() - end,
    {
        end += 1;
    }
    proof {
        lemma_first_index_of(text@, '\n', end as int);
    }
    if end == text.len() {
        return None;
    }
    let message = slice_of(&text, 0, end);
    proof {
        assert(text@.subrange(0, end as int) == text@.take(end as int));
    }
    Some(string_of(&message))
}

/// A framed message is read back as it was sent, provided that it holds no
/// line feed itself.
pub proof fn law_framing_round_trip(message: Seq<char>)
    requires
        !message.contains('\n'),
    ensures
        first_message(framed(message)) == Some(message),
{
    let wire = framed(message);
    assert forall|j: int| 0 <= j < message.len() implies #[trigger] wire[j] != '\n' by {
        assert(wire[j] == message[j]);
        assert(message.contains(message[j]));
    }
    lemma_first_index_of(wire, '\n', message.len() as int);
    assert(wire.take(message.len() as int) == message);
}

} // verus!
