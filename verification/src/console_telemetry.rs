//! Where console telemetry is read from, and how one event is written down.

use crate::decimal::{decimal_digits, format_decimal};
use crate::models::{option_text, or_text};
use crate::text::{chars_of, join, join_strings, push_all, push_str, string_of};
use vstd::prelude::*;

verus! {

/// The port on which the console listens unless the project says otherwise.
pub const DEFAULT_CONSOLE_PORT: u16 = 5174;

/// The port on which the console listens.
pub fn resolve_console_port(configured: Option<u16>) -> (out: u16)
    ensures
        out == (match configured {
            Some(port) => port,
            None => DEFAULT_CONSOLE_PORT,
        }),
{
    match configured {
        Some(port) => port,
        None => DEFAULT_CONSOLE_PORT,
    }
}

/// The address of a path of the console on this machine.
pub open spec fn console_url(port: u16, path: Seq<char>) -> Seq<char> {
    "http://127.0.0.1:"@ + decimal_digits(port as nat) + path
}

/// Builds the address of a path of the console on this machine.
pub fn console_address(port: u16, path: &str) -> (out: String)
    ensures
        out@ == console_url(port, path@),
{
    let mut url = chars_of("http://127.0.0.1:");
    push_all(&mut url, &format_decimal(port as u64));
    push_str(&mut url, path);
    string_of(&url)
}

/// The address from which telemetry is read: the one given, or that of the
/// console's event stream.
pub fn resolve_telemetry_url(url_override: Option<String>, configured_port: Option<u16>) -> (out:
    String)
    ensures
        out@ == (match url_override {
            Some(url) => url@,
            None => console_url(
                match configured_port {
                    Some(port) => port,
                    None => DEFAULT_CONSOLE_PORT,
                },
                "/api/telemetry/console/events"@,
            ),
        }),
{
    match url_override {
        Some(url) => url,
        None => console_address(
            resolve_console_port(configured_port),
            "/api/telemetry/console/events",
        ),
    }
}

/// The address to which notifications are posted.
pub fn notification_url(configured_port: Option<u16>) -> (out: String)
    ensures
        out@ == console_url(
            match configured_port {
                Some(port) => port,
                None => DEFAULT_CONSOLE_PORT,
            },
            "/api/notifications"@,
        ),
{
    console_address(resolve_console_port(configured_port), "/api/notifications")
}

/// What one telemetry event holds, as far as it holds it. `args` are the
/// event's arguments, each written as text.
pub struct ConsoleTelemetryEvent {
    pub level: Option<String>,
    pub message: Option<String>,
    pub args: Option<Vec<String>>,
    pub timestamp: Option<String>,
    pub received_at: Option<String>,
    pub url: Option<String>,
    pub session_id: Option<String>,
}

/// The arguments of an event as one text, where it has any.
pub open spec fn flattened(args: Option<Seq<Seq<char>>>) -> Option<Seq<char>> {
    match args {
        Some(parts) => if parts.len() == 0 {
            None
        } else {
            Some(join(parts, " "@))
        },
        None => None,
    }
}

/// Puts the arguments of an event into one text.
pub fn flatten_args(args: &Option<Vec<String>>) -> (out: Option<String>)
    ensures
        option_text(out) == flattened(
            match args {
                Some(parts) => Some(parts.deep_view()),
                None => None,
            },
        ),
{
    match args {
        Some(parts) => {
            if parts.len() == 0 {
                None
            } else {
                Some(join_strings(parts, " "))
            }
        },
        None => None,
    }
}

/// The first of two optional texts that is there.
pub open spec fn first_of(a: Option<Seq<char>>, b: Option<Seq<char>>) -> Option<Seq<char>> {
    match a {
        Some(text) => Some(text),
        None => b,
    }
}

/// The line written for an event that could be read; `payload` is the text
/// from which it was read and stands in for a message that the event lacks.
pub open spec fn telemetry_line(event: ConsoleTelemetryEvent, payload: Seq<char>) -> Seq<char> {
    let timestamp = or_text(
        first_of(option_text(event.timestamp), option_text(event.received_at)),
        "unknown-time"@,
    );
    let level = or_text(option_text(event.level), "log"@);
    let body = or_text(
        first_of(
            option_text(event.message),
            flattened(
                match event.args {
                    Some(parts) => Some(parts.deep_view()),
                    None => None,
                },
            ),
        ),
        payload,
    );
    let source = or_text(option_text(event.url), "unknown-source"@);
    let session = or_text(option_text(event.session_id), "unknown-session"@);
    "["@ + timestamp + "] ["@ + level + "] ["@ + session + "] "@ + body + " ("@ + source + ")"@
}

/// The line written for a payload that could not be read as an event.
pub open spec fn unparsed_line(payload: Seq<char>) -> Seq<char> {
    "[unparsed] "@ + payload
}

/// Appends an optional text, or `fallback` in its place.
fn push_or(out: &mut Vec<char>, value: &Option<String>, fallback: &str)
    ensures
        final(out)@ == old(out)@ + or_text(option_text(*value), fallback@),
{
    match value {
        Some(text) => push_str(out, text.as_str()),
        None => push_str(out, fallback),
    }
}

/// Writes one telemetry line: for an event that could be read, its time,
/// level, session, message and source; for a payload that is no event, the
/// payload marked as unparsed.
pub fn format_telemetry_line(event: Option<&ConsoleTelemetryEvent>, payload: &str) -> (out: String)
    ensures
        out@ == (match event {
            Some(e) => telemetry_line(*e, payload@),
            None => unparsed_line(payload@),
        }),
{
    match event {
        None => {
            let mut line = chars_of("[unparsed] ");
            push_str(&mut line, payload);
            string_of(&line)
        },
        Some(e) => {
            let mut line = chars_of("[");
            match &e.timestamp {
                Some(text) => push_str(&mut line, text.as_str()),
                None => push_or(&mut line, &e.received_at, "unknown-time"),
            }
            push_str(&mut line, "] [");
            push_or(&mut line, &e.level, "log");
            push_str(&mut line, "] [");
            push_or(&mut line, &e.session_id, "unknown-session");
            push_str(&mut line, "] ");
            match &e.message {
                Some(text) => push_str(&mut line, text.as_str()),
                None => match flatten_args(&e.args) {
                    Some(text) => push_str(&mut line, text.as_str()),
                    None => push_str(&mut line, payload),
                },
            }
            push_str(&mut line, " (");
            push_or(&mut line, &e.url, "unknown-source");
            push_str(&mut line, ")");
            string_of(&line)
        },
    }
}

} // verus!
