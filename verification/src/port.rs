//! Port discovery: finding the port that the harness sidecar prints when it
//! starts listening, and the decision taken on each event of its output.

use vstd::prelude::*;
use vstd::utf8::*;
use crate::text::{
    number_text_error_message, parse_u16, spec_parse_u16, u16_text_error, NumberTextError,
};

verus! {

/// Whether `regex::Regex::new` accepts `pattern` (it refuses invalid syntax
/// and patterns over its default size limit).
pub uninterp spec fn regex_compiles(pattern: Seq<char>) -> bool;

/// What `Regex::captures` finds for `pattern` in `haystack`, read through
/// `Captures::get(group)` and `Match::as_str`: `None` where the pattern does
/// not match, `Some(None)` where the group took no part in the match, and
/// otherwise the text of the group.
pub uninterp spec fn regex_capture(pattern: Seq<char>, haystack: Seq<char>, group: usize) -> Option<
    Option<Seq<char>>,
>;

/// The message of the `regex::Error` that `regex::Regex::new` gives for a
/// pattern it refuses, as its `Display` writes it.
pub uninterp spec fn regex_error_text(pattern: Seq<char>) -> Seq<char>;

/// The text of a capture outcome.
pub open spec fn capture_text(found: Option<Option<String>>) -> Option<Option<Seq<char>>> {
    match found {
        None => None,
        Some(None) => Some(None),
        Some(Some(t)) => Some(Some(t@)),
    }
}

/// Compiles `pattern` with `regex::Regex::new` and reads capture group
/// `group` of the first match in `haystack`. Trusted: the result is `Ok`
/// exactly when the pattern compiles, and then it is the text that
/// `regex_capture` names; otherwise it is the error's message, named by
/// `regex_error_text`. Nothing more about the matching is stated here.
#[verifier::external_body]
fn regex_capture_group(pattern: &str, haystack: &str, group: usize) -> (r: Result<
    Option<Option<String>>,
    String,
>)
    ensures
        r is Ok <==> regex_compiles(pattern@),
        r matches Ok(found) ==> capture_text(found) == regex_capture(pattern@, haystack@, group),
        r matches Err(t) ==> t@ == regex_error_text(pattern@),
{
    let re = regex::Regex::new(pattern).map_err(|e| e.to_string())?;
    match re.captures(haystack) {
        None => Ok(None),
        Some(caps) => match caps.get(group) {
            None => Ok(Some(None)),
            Some(m) => Ok(Some(Some(m.as_str().to_string()))),
        },
    }
}

/// Why a log line could not be read for a port.
#[derive(Debug, Clone, PartialEq, Eq)]
pub enum PortError {
    /// A port pattern was refused by the regular expression compiler, with
    /// the compiler's message.
    InvalidPattern(String),
    /// A pattern matched but its port group took no part in the match.
    MissingCaptureGroup,
    /// The captured text is not a `u16` in base ten, for this reason.
    InvalidPort(NumberTextError),
}

/// The content of a `PortError`.
pub enum PortFault {
    InvalidPattern(Seq<char>),
    MissingCaptureGroup,
    InvalidPort(NumberTextError),
}

impl View for PortError {
    type V = PortFault;

    open spec fn view(&self) -> PortFault {
        match self {
            PortError::InvalidPattern(t) => PortFault::InvalidPattern(t@),
            PortError::MissingCaptureGroup => PortFault::MissingCaptureGroup,
            PortError::InvalidPort(e) => PortFault::InvalidPort(*e),
        }
    }
}

/// The content of a result that may hold a `PortError`.
pub open spec fn port_result_view<T>(r: Result<T, PortError>) -> Result<T, PortFault> {
    match r {
        Ok(x) => Ok(x),
        Err(e) => Err(e@),
    }
}

/// The number of port patterns.
pub open spec fn port_pattern_count() -> nat {
    5
}

/// The port patterns, tried in this order: the harness startup lines, then
/// a bare `127.0.0.1:<port>`, then a port at the end of the line.
pub open spec fn port_pattern(i: int) -> Seq<char> {
    if i == 0 {
        "listening on \\S+:(\\d+)"@
    } else if i == 1 {
        "bound to \\S+:(\\d+)"@
    } else if i == 2 {
        "server started on \\S+:(\\d+)"@
    } else if i == 3 {
        "127\\.0\\.0\\.1:(\\d+)"@
    } else {
        ":(\\d+)\\s*$"@
    }
}

fn port_pattern_str(i: usize) -> (p: &'static str)
    requires
        i < port_pattern_count(),
    ensures
        p@ == port_pattern(i as int),
{
    if i == 0 {
        "listening on \\S+:(\\d+)"
    } else if i == 1 {
        "bound to \\S+:(\\d+)"
    } else if i == 2 {
        "server started on \\S+:(\\d+)"
    } else if i == 3 {
        "127\\.0\\.0\\.1:(\\d+)"
    } else {
        ":(\\d+)\\s*$"
    }
}

/// What one pattern's capture outcome decides: `None` to try the next
/// pattern, otherwise the port or the error.
pub open spec fn capture_verdict(found: Option<Option<Seq<char>>>) -> Option<Result<u16, PortFault>> {
    match found {
        None => None,
        Some(None) => Some(Err(PortFault::MissingCaptureGroup)),
        Some(Some(t)) => match spec_parse_u16(t) {
            Some(p) => Some(Ok(p)),
            None => Some(Err(PortFault::InvalidPort(u16_text_error(t)))),
        },
    }
}

/// The result of reading `line` with the patterns from index `i` on.
pub open spec fn extract_port_from(line: Seq<char>, i: nat) -> Result<Option<u16>, PortFault>
    decreases port_pattern_count() - i,
{
    if i >= port_pattern_count() {
        Ok(None)
    } else if !regex_compiles(port_pattern(i as int)) {
        Err(PortFault::InvalidPattern(regex_error_text(port_pattern(i as int))))
    } else {
        match capture_verdict(regex_capture(port_pattern(i as int), line, 1)) {
            None => extract_port_from(line, i + 1),
            Some(Ok(p)) => Ok(Some(p)),
            Some(Err(e)) => Err(e),
        }
    }
}

/// The port that `line` announces: the first pattern that matches decides.
pub open spec fn spec_extract_port(line: Seq<char>) -> Result<Option<u16>, PortFault> {
    extract_port_from(line, 0)
}

/// Decides what a pattern's capture outcome means for the port: `None`
/// when the pattern did not match, the parsed port, or the error.
pub fn port_from_capture(found: Option<Option<String>>) -> (r: Option<Result<u16, PortError>>)
    ensures
        match r {
            None => None,
            Some(v) => Some(port_result_view(v)),
        } == capture_verdict(capture_text(found)),
{
    match found {
        None => None,
        Some(None) => Some(Err(PortError::MissingCaptureGroup)),
        Some(Some(t)) => match parse_u16(t.as_str()) {
            Ok(p) => Some(Ok(p)),
            Err(e) => Some(Err(PortError::InvalidPort(e))),
        },
    }
}

/// Extracts the port number from one line of sidecar output. The patterns
/// are tried in order; the first one that matches decides the result.
pub fn extract_port(line: &str) -> (r: Result<Option<u16>, PortError>)
    ensures
        port_result_view(r) == spec_extract_port(line@),
{
    let mut i: usize = 0;
    while i < 5
        invariant
            i <= port_pattern_count(),
            spec_extract_port(line@) == extract_port_from(line@, i as nat),
        decreases 5 - i,
    {
        let outcome = regex_capture_group(port_pattern_str(i), line, 1);
        match outcome {
            Err(t) => {
                return Err(PortError::InvalidPattern(t));
            },
            Ok(found) => match port_from_capture(found) {
                None => {},
                Some(Ok(p)) => {
                    return Ok(Some(p));
                },
                Some(Err(e)) => {
                    return Err(e);
                },
            },
        }
        i = i + 1;
    }
    Ok(None)
}

/// What the sidecar's output stream delivers.
pub enum SidecarEvent {
    /// A chunk of standard output (one line).
    Stdout(Vec<u8>),
    /// The sidecar process ended.
    Terminated,
    /// The event stream closed.
    Closed,
    /// Anything else (standard error, a spawn error message).
    Other,
}

/// Why port discovery ended without a port.
#[derive(Debug, Clone, PartialEq, Eq)]
pub enum DiscoveryError {
    /// A stdout line could not be read for a port.
    Port(PortError),
    /// The sidecar exited before printing its port.
    Exited,
    /// The event stream closed before a port was printed.
    StreamClosed,
}

/// What the discovery loop does after one event.
#[derive(Debug, Clone, PartialEq, Eq)]
pub enum DiscoveryStep {
    /// Wait for the next event.
    Continue,
    /// The sidecar listens on this port.
    Found(u16),
    /// Discovery failed.
    Failed(DiscoveryError),
}

/// The content of a `DiscoveryError`.
pub enum DiscoveryFault {
    Port(PortFault),
    Exited,
    StreamClosed,
}

/// The content of a `DiscoveryStep`.
pub enum DiscoveryDecision {
    Continue,
    Found(u16),
    Failed(DiscoveryFault),
}

impl View for DiscoveryError {
    type V = DiscoveryFault;

    open spec fn view(&self) -> DiscoveryFault {
        match self {
            DiscoveryError::Port(e) => DiscoveryFault::Port(e@),
            DiscoveryError::Exited => DiscoveryFault::Exited,
            DiscoveryError::StreamClosed => DiscoveryFault::StreamClosed,
        }
    }
}

impl View for DiscoveryStep {
    type V = DiscoveryDecision;

    open spec fn view(&self) -> DiscoveryDecision {
        match self {
            DiscoveryStep::Continue => DiscoveryDecision::Continue,
            DiscoveryStep::Found(p) => DiscoveryDecision::Found(*p),
            DiscoveryStep::Failed(e) => DiscoveryDecision::Failed(e@),
        }
    }
}

/// The decision for one event: stdout lines that are not valid UTF-8 are
/// skipped, the others are read for a port.
pub open spec fn spec_discovery_step(event: SidecarEvent) -> DiscoveryDecision {
    match event {
        SidecarEvent::Stdout(bytes) => if !valid_utf8(bytes@) {
            DiscoveryDecision::Continue
        } else {
            match spec_extract_port(decode_utf8(bytes@)) {
                Ok(Some(p)) => DiscoveryDecision::Found(p),
                Ok(None) => DiscoveryDecision::Continue,
                Err(e) => DiscoveryDecision::Failed(DiscoveryFault::Port(e)),
            }
        },
        SidecarEvent::Terminated => DiscoveryDecision::Failed(DiscoveryFault::Exited),
        SidecarEvent::Closed => DiscoveryDecision::Failed(DiscoveryFault::StreamClosed),
        SidecarEvent::Other => DiscoveryDecision::Continue,
    }
}

/// Decodes `bytes` as UTF-8 with `String::from_utf8`. Trusted: the result
/// is present exactly for valid UTF-8, and then holds the decoded text.
#[verifier::external_body]
fn utf8_text(bytes: Vec<u8>) -> (r: Option<String>)
    ensures
        r is Some <==> valid_utf8(bytes@),
        r matches Some(s) ==> s@ == decode_utf8(bytes@),
{
    String::from_utf8(bytes).ok()
}

/// Decides what the port discovery loop does with one event of the
/// sidecar's output.
pub fn discovery_step(event: SidecarEvent) -> (r: DiscoveryStep)
    ensures
        r@ == spec_discovery_step(event),
{
    match event {
        SidecarEvent::Stdout(bytes) => {
            match utf8_text(bytes) {
                None => DiscoveryStep::Continue,
                Some(line) => match extract_port(line.as_str()) {
                    Ok(Some(p)) => DiscoveryStep::Found(p),
                    Ok(None) => DiscoveryStep::Continue,
                    Err(e) => DiscoveryStep::Failed(DiscoveryError::Port(e)),
                },
            }
        },
        SidecarEvent::Terminated => DiscoveryStep::Failed(DiscoveryError::Exited),
        SidecarEvent::Closed => DiscoveryStep::Failed(DiscoveryError::StreamClosed),
        SidecarEvent::Other => DiscoveryStep::Continue,
    }
}

/// The text of a discovery error: the loop's own messages, and for a line
/// that could not be read the message of the underlying error (the regular
/// expression compiler's, or `ParseIntError`'s).
pub open spec fn discovery_error_text(e: DiscoveryFault) -> Seq<char> {
    match e {
        DiscoveryFault::Exited => "sidecar exited before port discovery"@,
        DiscoveryFault::StreamClosed => "sidecar event stream closed"@,
        DiscoveryFault::Port(PortFault::MissingCaptureGroup) => "port capture group not found"@,
        DiscoveryFault::Port(PortFault::InvalidPort(k)) => number_text_error_message(k),
        DiscoveryFault::Port(PortFault::InvalidPattern(t)) => t,
    }
}

/// The message reported when port discovery fails with `e`.
pub fn discovery_error_message(e: DiscoveryError) -> (s: String)
    ensures
        s@ == discovery_error_text(e@),
{
    match e {
        DiscoveryError::Exited => String::from_str("sidecar exited before port discovery"),
        DiscoveryError::StreamClosed => String::from_str("sidecar event stream closed"),
        DiscoveryError::Port(PortError::MissingCaptureGroup) => String::from_str(
            "port capture group not found",
        ),
        DiscoveryError::Port(PortError::InvalidPort(k)) => k.message(),
        DiscoveryError::Port(PortError::InvalidPattern(t)) => t,
    }
}

/// The steps that decide: every step but `Continue`, in order.
pub open spec fn decisions(steps: Seq<DiscoveryDecision>) -> Seq<DiscoveryDecision>
    decreases steps.len(),
{
    if steps.len() == 0 {
        Seq::empty()
    } else if steps[0] == DiscoveryDecision::Continue {
        decisions(steps.drop_first())
    } else {
        seq![steps[0]] + decisions(steps.drop_first())
    }
}

/// How discovery ends on the events `events`, read in order: the first step
/// that is not `Continue`, with the number of events read up to and
/// including it; `None` while every event so far only continues.
pub open spec fn discovery_outcome(events: Seq<SidecarEvent>) -> Option<(DiscoveryDecision, nat)>
    decreases events.len(),
{
    if events.len() == 0 {
        None
    } else if spec_discovery_step(events[0]) != DiscoveryDecision::Continue {
        Some((spec_discovery_step(events[0]), 1))
    } else {
        match discovery_outcome(events.drop_first()) {
            None => None,
            Some((step, n)) => Some((step, n + 1)),
        }
    }
}

/// The steps decided for `events`, one per event.
pub open spec fn discovery_steps(events: Seq<SidecarEvent>) -> Seq<DiscoveryDecision> {
    events.map_values(|e: SidecarEvent| spec_discovery_step(e))
}

/// The first deciding event decides: discovery ends after event `n - 1`
/// with its step, every earlier event only continues, and the step is the
/// first of the deciding steps.
pub proof fn lemma_first_deciding_event_decides(events: Seq<SidecarEvent>)
    ensures
        discovery_outcome(events) matches Some((step, n)) ==> {
            &&& 1 <= n <= events.len()
            &&& step == spec_discovery_step(events[n - 1])
            &&& step != DiscoveryDecision::Continue
            &&& forall|i: int| 0 <= i < n - 1 ==> spec_discovery_step(#[trigger] events[i])
                == DiscoveryDecision::Continue
        },
        discovery_outcome(events) is None ==> forall|i: int|
            0 <= i < events.len() ==> spec_discovery_step(#[trigger] events[i])
                == DiscoveryDecision::Continue,
        discovery_outcome(events) matches Some((step, n)) ==> decisions(discovery_steps(events)).len()
            > 0 && decisions(discovery_steps(events))[0] == step,
        discovery_outcome(events) is None <==> decisions(discovery_steps(events)).len() == 0,
    decreases events.len(),
{
    if events.len() > 0 {
        let rest = events.drop_first();
        lemma_first_deciding_event_decides(rest);
        assert(discovery_steps(events).drop_first() =~= discovery_steps(rest));
        assert(discovery_steps(events)[0] == spec_discovery_step(events[0]));
        if discovery_outcome(events) is None {
            assert forall|i: int| 0 <= i < events.len() implies spec_discovery_step(
                #[trigger] events[i],
            ) == DiscoveryDecision::Continue by {
                if i > 0 {
                    assert(events[i] == rest[i - 1]);
                }
            }
        }
        if spec_discovery_step(events[0]) == DiscoveryDecision::Continue {
            if let Some((_, m)) = discovery_outcome(rest) {
                let n = m + 1;
                assert(events[n - 1] == rest[m - 1]);
                assert forall|i: int| 0 <= i < m implies spec_discovery_step(#[trigger] events[i])
                    == DiscoveryDecision::Continue by {
                    if i > 0 {
                        assert(events[i] == rest[i - 1]);
                    }
                }
            }
        }
    } else {
        assert(discovery_steps(events) =~= Seq::<DiscoveryDecision>::empty());
    }
}

/// Events that only continue do not matter: two event sequences with the
/// same deciding steps, in the same order, end discovery with the same
/// step. Standard error, spawn messages, stdout that is not UTF-8 and
/// lines without a port can be added or removed anywhere.
pub proof fn lemma_continuing_events_ignored(a: Seq<SidecarEvent>, b: Seq<SidecarEvent>)
    requires
        decisions(discovery_steps(a)) == decisions(discovery_steps(b)),
    ensures
        discovery_outcome(a) is None <==> discovery_outcome(b) is None,
        discovery_outcome(a) matches Some((sa, _)) ==> discovery_outcome(b) matches Some((sb, _))
            && sa == sb,
{
    lemma_first_deciding_event_decides(a);
    lemma_first_deciding_event_decides(b);
}


/// Only the last pattern, the fallback, is anchored: the first four may
/// match anywhere in a line and hold neither `^` nor `$`.
pub proof fn lemma_port_patterns_unanchored(i: int)
    requires
        0 <= i < 4,
    ensures
        !port_pattern(i).contains('$'),
        !port_pattern(i).contains('^'),
        port_pattern(4).last() == '$',
{
    reveal_strlit("listening on \\S+:(\\d+)");
    reveal_strlit("bound to \\S+:(\\d+)");
    reveal_strlit("server started on \\S+:(\\d+)");
    reveal_strlit("127\\.0\\.0\\.1:(\\d+)");
    reveal_strlit(":(\\d+)\\s*$");
}

/// A line that none of the three startup patterns matches, and in which
/// the loopback pattern `127\.0\.0\.1:(\d+)`, unanchored, captures a
/// port text, announces the port that this text denotes (or fails with the
/// reason the text is not a port), wherever the address stands in the line.
pub proof fn lemma_loopback_address_gives_port(line: Seq<char>, t: Seq<char>)
    requires
        forall|i: int|
            0 <= i < 3 ==> regex_compiles(#[trigger] port_pattern(i)) && regex_capture(
                port_pattern(i),
                line,
                1,
            ) is None,
        regex_compiles("127\\.0\\.0\\.1:(\\d+)"@),
        regex_capture("127\\.0\\.0\\.1:(\\d+)"@, line, 1) == Some(Some(t)),
    ensures
        spec_extract_port(line) == (match spec_parse_u16(t) {
            Some(p) => Ok::<Option<u16>, PortFault>(Some(p)),
            None => Err(PortFault::InvalidPort(u16_text_error(t))),
        }),
{
    assert(regex_compiles(port_pattern(0)));
    assert(regex_compiles(port_pattern(1)));
    assert(regex_compiles(port_pattern(2)));
    reveal_with_fuel(extract_port_from, 5);
}


/// A line that the harness's `listening on <host>:<port>` pattern matches
/// announces the port it captures (or fails with the reason the captured
/// text is not a port), whatever else the line holds: that pattern is tried
/// first.
pub proof fn lemma_listening_line_gives_port(line: Seq<char>, t: Seq<char>)
    requires
        regex_compiles("listening on \\S+:(\\d+)"@),
        regex_capture("listening on \\S+:(\\d+)"@, line, 1) == Some(Some(t)),
    ensures
        spec_extract_port(line) == (match spec_parse_u16(t) {
            Some(p) => Ok::<Option<u16>, PortFault>(Some(p)),
            None => Err(PortFault::InvalidPort(u16_text_error(t))),
        }),
{
}

} // verus!
