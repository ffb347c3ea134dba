//! The `dsh-status` events sent to the frontend, and the state machine that
//! watches a running sidecar for restarts.

use vstd::prelude::*;
use vstd::string::*;
use crate::sidecar::{sidecar_url, sidecar_url_text};

verus! {

/// The payload of a `dsh-status` event: a status word, a message, and for
/// a restart the port being watched.
#[derive(Debug)]
pub struct StatusPayload {
    pub status: String,
    pub message: String,
    pub port: Option<u16>,
}

/// A payload with `status` and `message` only.
pub fn status_payload(status: &str, message: &str) -> (p: StatusPayload)
    ensures
        p.status@ == status@,
        p.message@ == message@,
        p.port is None,
{
    StatusPayload { status: String::from_str(status), message: String::from_str(message), port: None }
}

/// The sidecar is ready at `url`.
pub fn ready_status(url: &str) -> (p: StatusPayload)
    ensures
        p.status@ == "ready"@,
        p.message@ == url@,
        p.port is None,
{
    status_payload("ready", url)
}

/// Starting the sidecar failed with `message`.
pub fn error_status(message: &str) -> (p: StatusPayload)
    ensures
        p.status@ == "error"@,
        p.message@ == message@,
        p.port is None,
{
    status_payload("error", message)
}

/// The entry point could not be found; `detail` says where it was sought.
pub fn dsh_not_found_status(detail: &str) -> (p: StatusPayload)
    ensures
        p.status@ == "error"@,
        p.message@ == "dsh not found: "@ + detail@,
        p.port is None,
{
    let mut message = String::from_str("dsh not found: ");
    message.append(detail);
    StatusPayload { status: String::from_str("error"), message, port: None }
}

/// A new sidecar took over `port` after a restart.
pub fn restarting_status(port: u16) -> (p: StatusPayload)
    ensures
        p.status@ == "restarting"@,
        p.message@ == "正在重启，请稍候…"@,
        p.port == Some(port),
{
    StatusPayload {
        status: String::from_str("restarting"),
        message: String::from_str("正在重启，请稍候…"),
        port: Some(port),
    }
}

/// The ready event after a restart on `port`: its message is the URL.
pub fn restarted_status(port: u16) -> (p: StatusPayload)
    ensures
        p.status@ == "ready"@,
        p.message@ == sidecar_url_text(port),
        p.port is None,
{
    let url = sidecar_url(port);
    StatusPayload { status: String::from_str("ready"), message: url, port: None }
}

/// The sidecar stopped and no new one took over within the restart window.
pub fn exit_error_status() -> (p: StatusPayload)
    ensures
        p.status@ == "error"@,
        p.message@ == "Sidecar 进程意外退出"@,
        p.port is None,
{
    status_payload("error", "Sidecar 进程意外退出")
}

/// Where the restart watcher stands.
#[derive(Debug, Clone, Copy, PartialEq, Eq, Structural)]
pub enum WatchState {
    /// The sidecar answered the last probe.
    Watching,
    /// The sidecar stopped answering; waiting for a new one to take over.
    AwaitingRestart,
    /// No new sidecar came within the restart window; the watcher is done.
    Stopped,
}

/// What the application reports back to the watcher.
#[derive(Debug, Clone, Copy, PartialEq, Eq, Structural)]
pub enum WatchInput {
    /// A connection attempt to the port succeeded (`true`) or failed.
    Probed(bool),
    /// Milliseconds since the sidecar stopped answering.
    Elapsed(u64),
    /// The restart was announced and the WebView reloaded.
    Announced,
}

/// What the application does next for the watcher.
#[derive(Debug, Clone, Copy, PartialEq, Eq, Structural)]
pub enum WatchCommand {
    /// Sleep this many milliseconds, then probe the port and report it.
    SleepThenProbe(u64),
    /// Note the time the outage began, then report the elapsed time.
    StartOutageTimer,
    /// Report the time elapsed since the outage began.
    CheckElapsed,
    /// Emit `restarting`, wait a second, reload the WebView, emit `ready`,
    /// then report `Announced`.
    AnnounceRestart,
    /// Emit `exit_error_status` and end the watcher: no more probes.
    ReportExitAndStop,
    /// The watcher has ended: do nothing.
    Finish,
}

/// Seconds between probes while the sidecar serves, in milliseconds.
pub open spec fn probe_interval_ms() -> u64 {
    1000
}

/// Pause between probes while waiting for a restart, in milliseconds.
pub open spec fn restart_poll_ms() -> u64 {
    500
}

/// How long the watcher waits for a new sidecar after an outage, in
/// milliseconds.
pub open spec fn restart_timeout_ms() -> u64 {
    60000
}

/// The watcher's transition for one input.
pub open spec fn watch_transition(state: WatchState, input: WatchInput) -> (WatchState, WatchCommand) {
    match state {
        WatchState::Watching => match input {
            WatchInput::Probed(false) => (WatchState::AwaitingRestart, WatchCommand::StartOutageTimer),
            _ => (WatchState::Watching, WatchCommand::SleepThenProbe(probe_interval_ms())),
        },
        WatchState::AwaitingRestart => match input {
            WatchInput::Probed(true) => (WatchState::Watching, WatchCommand::AnnounceRestart),
            WatchInput::Elapsed(ms) => if ms < restart_timeout_ms() {
                (WatchState::AwaitingRestart, WatchCommand::SleepThenProbe(restart_poll_ms()))
            } else {
                (WatchState::Stopped, WatchCommand::ReportExitAndStop)
            },
            _ => (WatchState::AwaitingRestart, WatchCommand::CheckElapsed),
        },
        WatchState::Stopped => (WatchState::Stopped, WatchCommand::Finish),
    }
}

/// The watcher starts by probing the port at once.
pub fn watch_start() -> (r: (WatchState, WatchCommand))
    ensures
        r == (WatchState::Watching, WatchCommand::SleepThenProbe(0)),
{
    (WatchState::Watching, WatchCommand::SleepThenProbe(0))
}

/// Decides the watcher's next state and command. While the sidecar serves
/// it is probed every second. When a probe fails the outage timer starts;
/// the port is then probed every half second until a new sidecar answers
/// (the restart is announced and watching resumes) or a minute has passed
/// (the unexpected exit is reported once and the watcher ends).
pub fn watch_step(state: WatchState, input: WatchInput) -> (r: (WatchState, WatchCommand))
    ensures
        r == watch_transition(state, input),
{
    match state {
        WatchState::Watching => match input {
            WatchInput::Probed(false) => (WatchState::AwaitingRestart, WatchCommand::StartOutageTimer),
            _ => (WatchState::Watching, WatchCommand::SleepThenProbe(1000)),
        },
        WatchState::AwaitingRestart => match input {
            WatchInput::Probed(true) => (WatchState::Watching, WatchCommand::AnnounceRestart),
            WatchInput::Elapsed(ms) => if ms < 60000 {
                (WatchState::AwaitingRestart, WatchCommand::SleepThenProbe(500))
            } else {
                (WatchState::Stopped, WatchCommand::ReportExitAndStop)
            },
            _ => (WatchState::AwaitingRestart, WatchCommand::CheckElapsed),
        },
        WatchState::Stopped => (WatchState::Stopped, WatchCommand::Finish),
    }
}

/// The watcher's state after it has been given `inputs`, starting from
/// `Watching`.
pub open spec fn watch_state_after(inputs: Seq<WatchInput>) -> WatchState
    decreases inputs.len(),
{
    if inputs.len() == 0 {
        WatchState::Watching
    } else {
        watch_transition(watch_state_after(inputs.drop_last()), inputs.last()).0
    }
}

/// The command the watcher gives in answer to input `k`.
pub open spec fn watch_command_at(inputs: Seq<WatchInput>, k: int) -> WatchCommand {
    watch_transition(watch_state_after(inputs.take(k)), inputs[k]).1
}

/// The watcher waits for a restart only after a failed probe that no
/// successful probe has followed.
proof fn lemma_awaiting_after_outage(p: Seq<WatchInput>)
    ensures
        watch_state_after(p) == WatchState::AwaitingRestart ==> exists|j: int|
            0 <= j < p.len() && p[j] == WatchInput::Probed(false) && forall|i: int|
                j < i < p.len() ==> p[i] != WatchInput::Probed(true),
    decreases p.len(),
{
    if p.len() > 0 {
        let q = p.drop_last();
        lemma_awaiting_after_outage(q);
        if watch_state_after(p) == WatchState::AwaitingRestart {
            if watch_state_after(q) == WatchState::Watching {
                assert(p[p.len() - 1] == WatchInput::Probed(false));
            } else {
                let j = choose|j: int|
                    0 <= j < q.len() && q[j] == WatchInput::Probed(false) && forall|i: int|
                        j < i < q.len() ==> q[i] != WatchInput::Probed(true);
                assert(p[j] == q[j]);
                assert forall|i: int| j < i < p.len() implies p[i] != WatchInput::Probed(true) by {
                    if i < q.len() {
                        assert(p[i] == q[i]);
                    }
                }
            }
        }
    }
}

/// A restart is announced only in answer to a successful probe made while
/// waiting, that is after a failed probe that no successful probe had
/// followed.
pub proof fn lemma_restart_only_after_outage(inputs: Seq<WatchInput>, k: int)
    requires
        0 <= k < inputs.len(),
        watch_command_at(inputs, k) == WatchCommand::AnnounceRestart,
    ensures
        inputs[k] == WatchInput::Probed(true),
        exists|j: int|
            0 <= j < k && inputs[j] == WatchInput::Probed(false) && forall|i: int|
                j < i < k ==> inputs[i] != WatchInput::Probed(true),
{
    let p = inputs.take(k);
    lemma_awaiting_after_outage(p);
    let j = choose|j: int|
        0 <= j < p.len() && p[j] == WatchInput::Probed(false) && forall|i: int|
            j < i < p.len() ==> p[i] != WatchInput::Probed(true);
    assert(inputs[j] == p[j]);
    assert forall|i: int| j < i < k implies inputs[i] != WatchInput::Probed(true) by {
        assert(inputs[i] == p[i]);
    }
}

/// Once stopped, the watcher stays stopped.
proof fn lemma_stopped_stays(p: Seq<WatchInput>, k: int)
    requires
        0 <= k <= p.len(),
        watch_state_after(p.take(k)) == WatchState::Stopped,
    ensures
        watch_state_after(p) == WatchState::Stopped,
    decreases p.len() - k,
{
    if k < p.len() {
        let q = p.take(k + 1);
        assert(q.drop_last() =~= p.take(k));
        lemma_stopped_stays(p, k + 1);
    } else {
        assert(p.take(k) =~= p);
    }
}

/// After the restart window has run out the watcher reports the unexpected
/// exit once and stops: every later input is answered with `Finish`, so
/// there is no further probe and no further report.
pub proof fn lemma_exit_reported_once(inputs: Seq<WatchInput>, k: int)
    requires
        0 <= k < inputs.len(),
        watch_command_at(inputs, k) == WatchCommand::ReportExitAndStop,
    ensures
        forall|i: int| k < i < inputs.len() ==> watch_command_at(inputs, i) == WatchCommand::Finish,
{
    let q = inputs.take(k + 1);
    assert(q.drop_last() =~= inputs.take(k));
    assert(q.last() == inputs[k]);
    assert(watch_state_after(q) == WatchState::Stopped);
    assert forall|i: int| k < i < inputs.len() implies watch_command_at(inputs, i)
        == WatchCommand::Finish by {
        let r = inputs.take(i);
        assert(r.take(k + 1) =~= q);
        lemma_stopped_stays(r, k + 1);
    }
}

/// The unexpected exit is reported exactly when a minute or more has passed
/// while waiting for a restart.
pub proof fn lemma_exit_report_after_timeout(inputs: Seq<WatchInput>, k: int)
    requires
        0 <= k < inputs.len(),
    ensures
        watch_command_at(inputs, k) == WatchCommand::ReportExitAndStop <==> (watch_state_after(
            inputs.take(k),
        ) == WatchState::AwaitingRestart && (inputs[k] is Elapsed && inputs[k]->Elapsed_0
            >= restart_timeout_ms())),
{
}

} // verus!
