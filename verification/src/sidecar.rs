//! The harness sidecar: the URL the WebView loads, the command line it is
//! started with, and the choice of the port it is asked to listen on.

use vstd::prelude::*;
use vstd::string::*;
use crate::paths::DshPath;
use crate::platform::{texts, TargetOs};
use crate::text::{decimal_string, decimal_text};

verus! {

/// `http://127.0.0.1:<port>`.
pub open spec fn sidecar_url_text(port: u16) -> Seq<char> {
    "http://127.0.0.1:"@ + decimal_text(port as nat)
}

/// The base URL the WebView loads for a sidecar listening on `port`.
pub fn sidecar_url(port: u16) -> (s: String)
    ensures
        s@ == sidecar_url_text(port),
{
    let mut s = String::from_str("http://127.0.0.1:");
    let digits = decimal_string(port as u64);
    s.append(digits.as_str());
    s
}

/// A running harness sidecar: the port it listens on and the entry point
/// it runs. (The process handle itself stays with the application.)
#[derive(Debug)]
pub struct SidecarHandle {
    pub port: u16,
    pub dsh_path: DshPath,
}

impl SidecarHandle {
    /// The base URL the WebView should load.
    pub fn url(&self) -> (s: String)
        ensures
            s@ == sidecar_url_text(self.port),
    {
        sidecar_url(self.port)
    }
}

/// The sidecar as the application state records it once it is ready.
#[derive(Debug)]
pub struct SidecarState {
    pub port: u16,
    pub dsh_path: DshPath,
}

impl SidecarState {
    /// The state of a ready sidecar.
    pub fn from_handle(handle: SidecarHandle) -> (s: SidecarState)
        ensures
            s.port == handle.port,
            s.dsh_path == handle.dsh_path,
    {
        SidecarState { port: handle.port, dsh_path: handle.dsh_path }
    }

    /// The base URL the WebView loads.
    pub fn url(&self) -> (s: String)
        ensures
            s@ == sidecar_url_text(self.port),
    {
        sidecar_url(self.port)
    }
}

/// The Windows extended-length path prefix `\\?\`.
pub open spec fn extended_prefix() -> Seq<char> {
    seq!['\\', '\\', '?', '\\']
}

/// Whether `pat` occurs in `s` at index `i`.
pub open spec fn occurs_at(s: Seq<char>, pat: Seq<char>, i: int) -> bool {
    0 <= i && i + pat.len() <= s.len() && s.subrange(i, i + pat.len()) == pat
}

/// The first index from `i` on where `pat` occurs in `s`.
pub open spec fn first_occurrence_from(s: Seq<char>, pat: Seq<char>, i: int) -> Option<int>
    decreases s.len() + 1 - i,
{
    if i < 0 || i + pat.len() > s.len() {
        None
    } else if occurs_at(s, pat, i) {
        Some(i)
    } else {
        first_occurrence_from(s, pat, i + 1)
    }
}

/// `s` without the first occurrence of `pat`, as `s.replacen(pat, "", 1)`.
pub open spec fn remove_first(s: Seq<char>, pat: Seq<char>) -> Seq<char> {
    match first_occurrence_from(s, pat, 0) {
        Some(i) => s.take(i) + s.skip(i + pat.len()),
        None => s,
    }
}

/// The script argument handed to node: on Windows the first `\\?\` that
/// the resource directory carries is removed, since node cannot resolve
/// such paths.
pub open spec fn script_arg_text(path: Seq<char>, os: TargetOs) -> Seq<char> {
    if os == TargetOs::Windows {
        remove_first(path, extended_prefix())
    } else {
        path
    }
}

proof fn lemma_first_occurrence_range(s: Seq<char>, pat: Seq<char>, i: int)
    ensures
        first_occurrence_from(s, pat, i) matches Some(k) ==> i <= k && occurs_at(s, pat, k),
    decreases s.len() + 1 - i,
{
    if 0 <= i && i + pat.len() <= s.len() && !occurs_at(s, pat, i) {
        lemma_first_occurrence_range(s, pat, i + 1);
    }
}

/// `path` without the first `\\?\` in it.
fn remove_extended_prefix(path: &str) -> (r: String)
    ensures
        r@ == remove_first(path@, extended_prefix()),
{
    let n = path.unicode_len();
    let mut i: usize = 0;
    while n >= 4 && i <= n - 4
        invariant
            n == path@.len(),
            first_occurrence_from(path@, extended_prefix(), 0) == first_occurrence_from(
                path@,
                extended_prefix(),
                i as int,
            ),
        decreases n + 1 - i,
    {
        let found = path.get_char(i) == '\\' && path.get_char(i + 1) == '\\' && path.get_char(i + 2)
            == '?' && path.get_char(i + 3) == '\\';
        if found {
            assert(path@.subrange(i as int, i + 4) =~= extended_prefix());
            proof {
                lemma_first_occurrence_range(path@, extended_prefix(), 0);
            }
            let mut r = String::from_str(path.substring_char(0, i));
            r.append(path.substring_char(i + 4, n));
            assert(path@.subrange(0, i as int) =~= path@.take(i as int));
            assert(path@.subrange(i + 4, n as int) =~= path@.skip(i + 4));
            return r;
        }
        assert(!occurs_at(path@, extended_prefix(), i as int)) by {
            if occurs_at(path@, extended_prefix(), i as int) {
                assert(path@.subrange(i as int, i + 4)[0] == path@[i as int]);
                assert(path@.subrange(i as int, i + 4)[1] == path@[i + 1]);
                assert(path@.subrange(i as int, i + 4)[2] == path@[i + 2]);
                assert(path@.subrange(i as int, i + 4)[3] == path@[i + 3]);
            }
        }
        i = i + 1;
    }
    String::from_str(path)
}

/// The script argument for node from the text of the dsh path.
pub fn node_script_arg(path: &str, os: TargetOs) -> (r: String)
    ensures
        r@ == script_arg_text(path@, os),
{
    if os == TargetOs::Windows {
        remove_extended_prefix(path)
    } else {
        String::from_str(path)
    }
}

/// `<script> web --port <port>`: the arguments node runs the harness with.
pub fn sidecar_args(script: &str, port: u16) -> (v: Vec<String>)
    ensures
        texts(v@) == seq![script@, "web"@, "--port"@, decimal_text(port as nat)],
{
    let mut v: Vec<String> = Vec::new();
    v.push(String::from_str(script));
    v.push(String::from_str("web"));
    v.push(String::from_str("--port"));
    v.push(decimal_string(port as u64));
    assert(texts(v@) =~= seq![script@, "web"@, "--port"@, decimal_text(port as nat)]);
    v
}

/// `<script> web --port 0`: the arguments that let the harness pick any
/// free port.
pub fn any_port_sidecar_args(script: &str) -> (v: Vec<String>)
    ensures
        texts(v@) == seq![script@, "web"@, "--port"@, "0"@],
{
    let mut v: Vec<String> = Vec::new();
    v.push(String::from_str(script));
    v.push(String::from_str("web"));
    v.push(String::from_str("--port"));
    v.push(String::from_str("0"));
    assert(texts(v@) =~= seq![script@, "web"@, "--port"@, "0"@]);
    v
}

/// The first port the sidecar may be asked to use.
pub open spec fn first_scanned_port() -> u16 {
    52000
}

/// The end (exclusive) of the ports the sidecar may be asked to use.
pub open spec fn scanned_ports_end() -> u16 {
    53000
}

/// The first port to try when looking for a free one: 52000.
pub fn first_port_candidate() -> (p: u16)
    ensures
        p == first_scanned_port(),
{
    52000
}

/// The port to try after `port` was found taken, or `None` when the range
/// 52000..53000 is exhausted.
pub fn next_port_candidate(port: u16) -> (r: Option<u16>)
    ensures
        port + 1 < scanned_ports_end() ==> r == Some((port + 1) as u16),
        port + 1 >= scanned_ports_end() ==> r is None,
{
    if port < 52999 {
        Some(port + 1)
    } else {
        None
    }
}

} // verus!
