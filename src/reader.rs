use vstd::prelude::*;

use crate::handshake::{announced_port, classify_stdout, handshake_suffix, has_handshake_prefix, LineKind};
use crate::registry::{port_after_line, query_result, PortRegistry, PortState, QueryError};

verus! {

/// The text that `String::from_utf8_lossy` makes of a byte sequence.
pub uninterp spec fn lossy_text(b: Seq<u8>) -> Seq<char>;

/// The text that `str::trim` leaves of a string.
pub uninterp spec fn trimmed_text(s: Seq<char>) -> Seq<char>;

/// Each byte read as the character of the same code.
pub open spec fn ascii_chars(b: Seq<u8>) -> Seq<char> {
    b.map_values(|x: u8| x as char)
}

/// Every byte is a printable ASCII character other than space (`!` to `~`).
pub open spec fn is_printable_ascii(b: Seq<u8>) -> bool {
    forall|i: int| 0 <= i < b.len() ==> 0x21 <= #[trigger] b[i] <= 0x7e
}

/// The text of a line of output: decoded as UTF-8 with invalid sequences
/// replaced, then trimmed of surrounding whitespace.
pub open spec fn line_text(b: Seq<u8>) -> Seq<char> {
    trimmed_text(lossy_text(b))
}

/// Relies on `String::from_utf8_lossy`: the decoded text depends on the bytes
/// alone, and ASCII bytes (valid UTF-8, one byte per character) come out as the
/// same characters.
#[verifier::external_body]
fn decode_lossy(b: &[u8]) -> (r: String)
    ensures
        r@ == lossy_text(b@),
        (forall|i: int| 0 <= i < b@.len() ==> #[trigger] b@[i] < 0x80) ==> r@ == ascii_chars(b@),
{
    String::from_utf8_lossy(b).into_owned()
}

/// Relies on `str::trim`: the result depends on the text alone, and text with
/// no whitespace character in it (here: printable ASCII other than space) is
/// returned unchanged.
#[verifier::external_body]
fn trim_text(s: &str) -> (r: &str)
    ensures
        r@ == trimmed_text(s@),
        (forall|i: int| 0 <= i < s@.len() ==> '!' <= #[trigger] s@[i] && s@[i] <= '~') ==> r@
            == s@,
{
    s.trim()
}

/// Decodes a line of the helper's output and trims it.
pub fn decode_line(b: &[u8]) -> (r: String)
    ensures
        r@ == line_text(b@),
        is_printable_ascii(b@) ==> r@ == ascii_chars(b@),
{
    let decoded = decode_lossy(b);
    proof {
        if is_printable_ascii(b@) {
            assert(forall|i: int| 0 <= i < b@.len() ==> #[trigger] b@[i] < 0x80);
            assert(forall|i: int|
                0 <= i < decoded@.len() ==> '!' <= #[trigger] decoded@[i] && decoded@[i] <= '~')
                by {
                assert forall|i: int| 0 <= i < decoded@.len() implies '!' <= #[trigger] decoded@[i]
                    && decoded@[i] <= '~' by {
                    assert(decoded@[i] == b@[i] as char);
                    assert(0x21 <= b@[i] <= 0x7e);
                }
            }
        }
    }
    let trimmed = trim_text(decoded.as_str());
    trimmed.to_owned()
}

/// One event of the helper's output stream, in arrival order.
pub enum SupervisorEvent {
    /// A line on standard output, as raw bytes.
    StdoutLine(Vec<u8>),
    /// A line on standard error, as raw bytes.
    StderrLine(Vec<u8>),
    /// The helper exited: its exit code and signal, where the platform gives them.
    Terminated(Option<i32>, Option<i32>),
    /// Spawning or reading failed, with the cause.
    SpawnOrIoError(String),
    /// Any other kind of event; it is ignored.
    Other,
}

/// What the reader reports of an event, for the diagnostic log.
#[derive(Debug, PartialEq, Eq)]
pub enum Notice {
    /// The handshake gave this port (informational).
    PortAnnounced(u16),
    /// A handshake line whose port text is invalid (a warning); that text.
    MalformedPort(String),
    /// Any other stdout line, forwarded as the helper's stdout.
    SidecarStdout(String),
    /// A stderr line, forwarded as the helper's error output.
    SidecarStderr(String),
    /// The helper exited, with its exit code and signal.
    Terminated(Option<i32>, Option<i32>),
    /// Spawning or reading failed, with the cause.
    CommandError(String),
}

/// The events after which the reader stops.
pub open spec fn ends_reading(e: SupervisorEvent) -> bool {
    e is Terminated || e is SpawnOrIoError
}

/// The port state after one event: only stdout lines are read for the handshake.
pub open spec fn port_after_event(s: PortState, e: SupervisorEvent) -> PortState {
    match e {
        SupervisorEvent::StdoutLine(b) => port_after_line(s, line_text(b@)),
        _ => s,
    }
}

/// The port state after a reader that has not stopped consumes `events` in
/// order: it stops at the first `Terminated` or `SpawnOrIoError`.
pub open spec fn port_after_events(s: PortState, events: Seq<SupervisorEvent>) -> PortState
    decreases events.len(),
{
    if events.len() == 0 || ends_reading(events[0]) {
        s
    } else {
        port_after_events(port_after_event(s, events[0]), events.drop_first())
    }
}

/// The event is a stdout line that announces a valid port.
pub open spec fn announces_port(e: SupervisorEvent) -> bool {
    match e {
        SupervisorEvent::StdoutLine(b) => announced_port(line_text(b@)) is Some,
        _ => false,
    }
}

/// The events with every stderr line left out, the others in their order.
pub open spec fn without_stderr(events: Seq<SupervisorEvent>) -> Seq<SupervisorEvent>
    decreases events.len(),
{
    if events.len() == 0 {
        events
    } else if events[0] is StderrLine {
        without_stderr(events.drop_first())
    } else {
        seq![events[0]] + without_stderr(events.drop_first())
    }
}

/// As long as no stdout line announces a valid port, the registry keeps the
/// state it had.
pub proof fn lemma_port_kept_without_handshake(s: PortState, events: Seq<SupervisorEvent>)
    requires
        forall|i: int| 0 <= i < events.len() ==> !announces_port(#[trigger] events[i]),
    ensures
        port_after_events(s, events) == s,
    decreases events.len(),
{
    if events.len() > 0 && !ends_reading(events[0]) {
        assert(!announces_port(events[0]));
        assert forall|i: int| 0 <= i < events.drop_first().len() implies !announces_port(
            #[trigger] events.drop_first()[i],
        ) by {
            assert(events.drop_first()[i] == events[i + 1]);
        }
        lemma_port_kept_without_handshake(s, events.drop_first());
    }
}

/// Before any handshake line, a query answers `NotYetAvailable`, whatever other
/// events came.
pub proof fn lemma_no_port_before_handshake(events: Seq<SupervisorEvent>)
    requires
        forall|i: int| 0 <= i < events.len() ==> !announces_port(#[trigger] events[i]),
    ensures
        port_after_events(PortState::Unknown, events) == PortState::Unknown,
        query_result(port_after_events(PortState::Unknown, events)) == Err::<u16, QueryError>(
            QueryError::NotYetAvailable,
        ),
{
    lemma_port_kept_without_handshake(PortState::Unknown, events);
}

/// Stderr lines, wherever they stand among the other events, never move the
/// port, even where they read as a handshake line.
pub proof fn lemma_stderr_never_moves_port(s: PortState, events: Seq<SupervisorEvent>)
    ensures
        port_after_events(s, events) == port_after_events(s, without_stderr(events)),
    decreases events.len(),
{
    if events.len() > 0 {
        let rest = events.drop_first();
        if events[0] is StderrLine {
            lemma_stderr_never_moves_port(s, rest);
        } else {
            let w = seq![events[0]] + without_stderr(rest);
            assert(w[0] == events[0]);
            assert(w.drop_first() =~= without_stderr(rest));
            lemma_stderr_never_moves_port(port_after_event(s, events[0]), rest);
        }
    }
}

/// `n` is what the reader reports of `e`.
pub open spec fn reports(e: SupervisorEvent, n: Option<Notice>) -> bool {
    match e {
        SupervisorEvent::StdoutLine(b) => {
            let t = line_text(b@);
            match n {
                Some(Notice::PortAnnounced(p)) => announced_port(t) == Some(p),
                Some(Notice::MalformedPort(s)) => has_handshake_prefix(t) && announced_port(t) is None
                    && s@ == handshake_suffix(t),
                Some(Notice::SidecarStdout(s)) => !has_handshake_prefix(t) && s@ == t,
                _ => false,
            }
        },
        SupervisorEvent::StderrLine(b) => match n {
            Some(Notice::SidecarStderr(s)) => s@ == line_text(b@),
            _ => false,
        },
        SupervisorEvent::Terminated(code, signal) => n == Some(Notice::Terminated(code, signal)),
        SupervisorEvent::SpawnOrIoError(cause) => match n {
            Some(Notice::CommandError(s)) => s@ == cause@,
            _ => false,
        },
        SupervisorEvent::Other => n is None,
    }
}

/// The loop that consumes the helper's output events one at a time.
pub struct EventReader {
    stopped: bool,
}

impl EventReader {
    /// Whether the reader has seen the end of the stream and takes no more events.
    pub closed spec fn is_stopped(&self) -> bool {
        self.stopped
    }

    pub fn new() -> (r: EventReader)
        ensures
            !r.is_stopped(),
    {
        EventReader { stopped: false }
    }

    pub fn stopped(&self) -> (r: bool)
        ensures
            r == self.is_stopped(),
    {
        self.stopped
    }

    /// Handles the next event. A stdout handshake line sets the registry's
    /// port; every other line is reported for the log; `Terminated` and
    /// `SpawnOrIoError` stop the reader. A stopped reader ignores all events
    /// and never writes the registry again.
    pub fn on_event(&mut self, registry: &mut PortRegistry, event: SupervisorEvent) -> (r:
        Option<Notice>)
        ensures
            old(self).is_stopped() ==> final(self).is_stopped() && final(registry)@ == old(registry)@
                && r is None,
            !old(self).is_stopped() ==> final(self).is_stopped() == ends_reading(event)
                && final(registry)@ == port_after_event(old(registry)@, event)
                && reports(event, r),
    {
        if self.stopped {
            return None;
        }
        match event {
            SupervisorEvent::StdoutLine(b) => {
                let text = decode_line(b.as_slice());
                match classify_stdout(text.as_str()) {
                    LineKind::Handshake(p) => {
                        registry.record(p);
                        Some(Notice::PortAnnounced(p))
                    },
                    LineKind::MalformedPort(s) => Some(Notice::MalformedPort(s)),
                    LineKind::Diagnostic(s) => Some(Notice::SidecarStdout(s)),
                }
            },
            SupervisorEvent::StderrLine(b) => Some(Notice::SidecarStderr(decode_line(b.as_slice()))),
            SupervisorEvent::Terminated(code, signal) => {
                self.stopped = true;
                Some(Notice::Terminated(code, signal))
            },
            SupervisorEvent::SpawnOrIoError(cause) => {
                self.stopped = true;
                Some(Notice::CommandError(cause))
            },
            SupervisorEvent::Other => None,
        }
    }
}

} // verus!
