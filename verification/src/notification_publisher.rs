//! Where change events are sent, and what is said when they cannot be.

use crate::error::{KanbusError, KanbusErrorView};
use crate::file_io::{join_path, path_in};
use crate::ids::{digest_head, digest_hex, sha256_hex};
use crate::text::{chars_of, push_str, string_of};
use vstd::prelude::*;
use vstd::string::StrSliceExecFns;
use vstd::utf8::encode_utf8;

verus! {

/// The number of hash digits in a socket's name.
pub const SOCKET_HASH_DIGITS: usize = 12;

/// The name of the console's socket for the project at `root`: it carries
/// the first twelve digits of the hash of the root's path.
pub open spec fn socket_name(root: Seq<char>) -> Seq<char> {
    "kanbus-"@ + sha256_hex(encode_utf8(root)).take(SOCKET_HASH_DIGITS as int) + ".sock"@
}

/// The path of the console's socket for the project at `root`, inside the
/// directory for temporary files. `root` is the canonical path of the
/// project's root.
pub fn get_socket_path(temp_dir: &str, root: &str) -> (out: String)
    ensures
        out@ == path_in(temp_dir@, socket_name(root@)),
{
    let digest = digest_hex(&root.as_bytes_vec());
    let head = digest_head(digest.as_str(), SOCKET_HASH_DIGITS);
    let mut name = chars_of("kanbus-");
    push_str(&mut name, head.as_str());
    push_str(&mut name, ".sock");
    let file = string_of(&name);
    join_path(temp_dir, file.as_str())
}

/// The ways in which sending an event can fail.
#[derive(Debug, Clone, Copy, PartialEq, Eq, Structural)]
pub enum SendFailure {
    /// Nothing listens on the socket.
    Unreachable,
    /// The event could not be written as text.
    Serialize,
    /// Writing the event to the socket failed.
    Write,
    /// Writing the line feed behind the event failed.
    Newline,
    /// The request to the console's address failed.
    Http,
}

/// The text that reports a failed send. `socket_path` is named where the
/// socket could not be reached; `reason` is what the system said.
pub open spec fn send_failure_text(failure: SendFailure, socket_path: Seq<char>, reason: Seq<char>) -> Seq<
    char,
> {
    match failure {
        SendFailure::Unreachable => "Console server not reachable (socket: "@ + socket_path
            + "): "@ + reason,
        SendFailure::Serialize => "Failed to serialize event: "@ + reason,
        SendFailure::Write => "Failed to write to socket: "@ + reason,
        SendFailure::Newline => "Failed to write newline: "@ + reason,
        SendFailure::Http => "Failed to send HTTP notification: "@ + reason,
    }
}

/// The error that reports a failed send.
pub fn send_failure_error(failure: SendFailure, socket_path: &str, reason: &str) -> (out: KanbusError)
    ensures
        out@ == KanbusErrorView::IssueOperation(
            send_failure_text(failure, socket_path@, reason@),
        ),
{
    let mut message: Vec<char> = Vec::new();
    match failure {
        SendFailure::Unreachable => {
            push_str(&mut message, "Console server not reachable (socket: ");
            push_str(&mut message, socket_path);
            push_str(&mut message, "): ");
        },
        SendFailure::Serialize => {
            push_str(&mut message, "Failed to serialize event: ");
        },
        SendFailure::Write => {
            push_str(&mut message, "Failed to write to socket: ");
        },
        SendFailure::Newline => {
            push_str(&mut message, "Failed to write newline: ");
        },
        SendFailure::Http => {
            push_str(&mut message, "Failed to send HTTP notification: ");
        },
    }
    push_str(&mut message, reason);
    proof {
        assert(message@ =~= send_failure_text(failure, socket_path@, reason@));
    }
    KanbusError::IssueOperation(string_of(&message))
}

/// The warning shown when an event could be sent neither over the socket
/// nor to the console's address.
pub open spec fn delivery_warning_text(socket_error: Seq<char>, http_error: Seq<char>) -> Seq<char> {
    "Warning: Failed to send notification (socket: "@ + socket_error + ", http: "@ + http_error
        + ")"@
}

/// What publishing an event comes to, given how the two sends went; the
/// second is tried only where the first failed. Publishing itself never
/// fails: at worst there is a warning to show.
pub fn publish_notification(
    socket: Result<(), KanbusError>,
    http: Option<Result<(), KanbusError>>,
) -> (out: Option<String>)
    ensures
        match (socket, http) {
            (Err(first), Some(Err(second))) => out matches Some(warning) && warning@
                == delivery_warning_text(first@.text(), second@.text()),
            _ => out is None,
        },
{
    match (socket, http) {
        (Err(first), Some(Err(second))) => {
            let mut warning = chars_of("Warning: Failed to send notification (socket: ");
            push_str(&mut warning, first.to_string().as_str());
            push_str(&mut warning, ", http: ");
            push_str(&mut warning, second.to_string().as_str());
            push_str(&mut warning, ")");
            Some(string_of(&warning))
        },
        _ => None,
    }
}

} // verus!
