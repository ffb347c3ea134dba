//! The command-driven desktop shell's commands and types: its error and message
//! enums, the sidecar status it reports, and its dsh path search.

use vstd::prelude::*;
use vstd::string::*;
use crate::paths::{
    bundled_path, bundled_segments, debug_quoted, debug_text, dir_display, first_existing,
    opt_text, select_existing, single_segment, DshNotFound, DshPath,
};

verus! {

/// The errors of the desktop shell, each with the text of its cause.
#[derive(Debug)]
pub enum AppError {
    DshPath(String),
    Spawn(String),
    SidecarExit(String),
    PortDiscovery(String),
    Io(String),
}

/// The message an error is shown with.
pub open spec fn app_error_text(e: AppError) -> Seq<char> {
    match e {
        AppError::DshPath(c) => "Failed to resolve dsh path: "@ + c@,
        AppError::Spawn(c) => "Failed to spawn sidecar: "@ + c@,
        AppError::SidecarExit(c) => "Sidecar exited unexpectedly: "@ + c@,
        AppError::PortDiscovery(c) => "Port discovery failed: "@ + c@,
        AppError::Io(c) => "IO error: "@ + c@,
    }
}

impl AppError {
    /// The message the error is shown with (and turned into a `String`).
    pub fn message(&self) -> (s: String)
        ensures
            s@ == app_error_text(*self),
    {
        let (prefix, cause) = match self {
            AppError::DshPath(c) => ("Failed to resolve dsh path: ", c),
            AppError::Spawn(c) => ("Failed to spawn sidecar: ", c),
            AppError::SidecarExit(c) => ("Sidecar exited unexpectedly: ", c),
            AppError::PortDiscovery(c) => ("Port discovery failed: ", c),
            AppError::Io(c) => ("IO error: ", c),
        };
        let mut s = String::from_str(prefix);
        s.append(cause.as_str());
        s
    }
}

/// Messages between the frontend and the shell.
#[derive(Debug)]
pub enum DshMessage {
    /// Request to start the sidecar.
    Start,
    /// Request to stop the sidecar.
    Stop,
    /// Request the status.
    Status,
    /// The sidecar started at this URL.
    Started(String),
    /// The sidecar stopped.
    Stopped,
    /// An error occurred.
    Error(String),
}

/// Whether the sidecar runs, and on which port.
#[derive(Debug, Clone, Copy, PartialEq, Eq, Structural)]
pub struct DshStatus {
    pub running: bool,
    pub port: Option<u16>,
}

/// The status reported for the sidecar state: running on its port when the
/// application holds a ready sidecar (`sidecar_port` is its port), stopped
/// otherwise.
pub fn dsh_status(sidecar_port: Option<u16>) -> (s: DshStatus)
    ensures
        s.running == sidecar_port is Some,
        s.port == sidecar_port,
{
    match sidecar_port {
        Some(port) => DshStatus { running: true, port: Some(port) },
        None => DshStatus { running: false, port: None },
    }
}

/// The candidates of the command-driven shell, in search order: the bundled
/// resource (when the resource directory is known), then
/// `resources/dsh/lib/bin.js` and `node_modules/@deepseek-ai/dsh/lib/bin.js`
/// relative to the working directory.
pub open spec fn desktop_candidates(dir: Option<Seq<char>>) -> Seq<Seq<Seq<char>>> {
    let dev = seq![
        seq!["resources/dsh/lib/bin.js"@],
        seq!["node_modules/@deepseek-ai/dsh/lib/bin.js"@],
    ];
    match dir {
        Some(d) => seq![bundled_segments(d, false)] + dev,
        None => dev,
    }
}

/// The message when no candidate exists.
pub open spec fn desktop_not_found_message(dir: Option<Seq<char>>) -> Seq<char> {
    "dsh not found. Searched:\n  - bundled resource ("@ + debug_text(dir_display(dir))
        + "/resources/dsh/lib/bin.js)\n  - resources/dsh/lib/bin.js\n  - node_modules/@deepseek-ai/dsh/lib/bin.js"@
}

/// The candidate paths of the command-driven shell, in search order.
pub fn desktop_dsh_path_candidates(app_resource_dir: &Option<String>) -> (v: Vec<DshPath>)
    ensures
        v@.map_values(|p: DshPath| p@) == desktop_candidates(opt_text(*app_resource_dir)),
{
    let mut v: Vec<DshPath> = Vec::new();
    match app_resource_dir {
        Some(dir) => {
            v.push(bundled_path(dir, false));
        },
        None => {},
    }
    v.push(single_segment("resources/dsh/lib/bin.js"));
    v.push(single_segment("node_modules/@deepseek-ai/dsh/lib/bin.js"));
    assert(v@.map_values(|p: DshPath| p@) =~= desktop_candidates(opt_text(*app_resource_dir)));
    v
}

fn desktop_message(dir: &Option<String>) -> (m: String)
    ensures
        m@ == desktop_not_found_message(opt_text(*dir)),
{
    let shown = match dir {
        Some(d) => debug_quoted(d.as_str()),
        None => debug_quoted(""),
    };
    proof {
        reveal_strlit("");
    }
    assert(shown@ == debug_text(dir_display(opt_text(*dir)))) by {
        if dir.is_none() {
            assert(""@ =~= Seq::<char>::empty());
        }
    }
    let mut m = String::from_str("dsh not found. Searched:\n  - bundled resource (");
    m.append(shown.as_str());
    m.append(
        "/resources/dsh/lib/bin.js)\n  - resources/dsh/lib/bin.js\n  - node_modules/@deepseek-ai/dsh/lib/bin.js",
    );
    m
}

/// Resolves the path to dsh's `lib/bin.js` for the command-driven shell: the first
/// candidate of `desktop_dsh_path_candidates` whose existence flag is set.
pub fn resolve_dsh_path(app_resource_dir: Option<String>, exists: &Vec<bool>) -> (r: Result<
    DshPath,
    DshNotFound,
>)
    ensures
        ({
            let c = desktop_candidates(opt_text(app_resource_dir));
            match first_existing(exists@, c.len() as int) {
                Some(i) => r matches Ok(p) && p@ == c[i],
                None => r matches Err(e) && e.message@ == desktop_not_found_message(
                    opt_text(app_resource_dir),
                ),
            }
        }),
{
    match select_existing(desktop_dsh_path_candidates(&app_resource_dir), exists) {
        Some(p) => Ok(p),
        None => Err(DshNotFound { message: desktop_message(&app_resource_dir) }),
    }
}


/// The command-driven shell searches exactly the places that its report
/// lists: after the bundled resource (when the resource directory is
/// known) come the single relative paths that close the report, in the
/// same order: `resources/dsh/lib/bin.js`, then
/// `node_modules/@deepseek-ai/dsh/lib/bin.js`.
pub proof fn lemma_desktop_search_matches_report(dir: Option<Seq<char>>)
    ensures
        ({
            let c = desktop_candidates(dir);
            let n = c.len() as int;
            let m = desktop_not_found_message(dir);
            let tail = "\n  - "@ + c[n - 2][0] + "\n  - "@ + c[n - 1][0];
            &&& n == (if dir is Some {
                3int
            } else {
                2int
            })
            &&& dir matches Some(d) ==> c[0] == bundled_segments(d, false)
            &&& c[n - 2].len() == 1 && c[n - 1].len() == 1
            &&& c[n - 2][0] == "resources/dsh/lib/bin.js"@
            &&& c[n - 1][0] == "node_modules/@deepseek-ai/dsh/lib/bin.js"@
            &&& tail.len() <= m.len()
            &&& m.skip(m.len() - tail.len()) == tail
        }),
{
    let c = desktop_candidates(dir);
    let n = c.len() as int;
    let m = desktop_not_found_message(dir);
    reveal_strlit("\n  - ");
    reveal_strlit("resources/dsh/lib/bin.js");
    reveal_strlit("node_modules/@deepseek-ai/dsh/lib/bin.js");
    reveal_strlit(
        "/resources/dsh/lib/bin.js)\n  - resources/dsh/lib/bin.js\n  - node_modules/@deepseek-ai/dsh/lib/bin.js",
    );
    let last = "/resources/dsh/lib/bin.js)\n  - resources/dsh/lib/bin.js\n  - node_modules/@deepseek-ai/dsh/lib/bin.js"@;
    let tail = "\n  - "@ + c[n - 2][0] + "\n  - "@ + c[n - 1][0];
    assert(tail =~= last.skip(last.len() - tail.len()));
    let head = "dsh not found. Searched:\n  - bundled resource ("@ + debug_text(dir_display(dir));
    assert(m == head + last);
    assert(m.skip(m.len() - tail.len()) =~= last.skip(last.len() - tail.len()));
}

} // verus!
