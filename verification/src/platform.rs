//! The operating system a decision depends on, and the commands that open
//! paths, URLs and text files on each.

use vstd::prelude::*;
use vstd::string::*;

verus! {

/// The operating system the desktop shell was built for.
#[derive(Debug, Clone, Copy, PartialEq, Eq, Structural)]
pub enum TargetOs {
    MacOs,
    Windows,
    Linux,
    Other,
}

/// The program that opens a path or URL with its default application.
pub open spec fn open_program(os: TargetOs) -> Seq<char> {
    match os {
        TargetOs::MacOs => "open"@,
        TargetOs::Windows => "start"@,
        _ => "xdg-open"@,
    }
}

/// The program that opens a path or URL with its default application:
/// `open` on macOS, `start` on Windows, `xdg-open` elsewhere.
pub fn open_cmd(os: TargetOs) -> (r: &'static str)
    ensures
        r@ == open_program(os),
{
    match os {
        TargetOs::MacOs => "open",
        TargetOs::Windows => "start",
        _ => "xdg-open",
    }
}

/// A program and its arguments.
#[derive(Debug)]
pub struct Invocation {
    pub program: String,
    pub args: Vec<String>,
}

/// The text of a list of strings.
pub open spec fn texts(v: Seq<String>) -> Seq<Seq<char>> {
    v.map_values(|s: String| s@)
}

/// The command that opens `path` (a path or a URL) with its default
/// application.
pub fn open_path_command(os: TargetOs, path: &str) -> (c: Invocation)
    ensures
        c.program@ == open_program(os),
        texts(c.args@) == seq![path@],
{
    let mut args: Vec<String> = Vec::new();
    args.push(String::from_str(path));
    let c = Invocation { program: String::from_str(open_cmd(os)), args };
    assert(texts(c.args@) =~= seq![path@]);
    c
}

/// The text-editor command of each platform: `open -t` on macOS, `notepad`
/// on Windows, `xdg-open` on Linux; other platforms have none.
pub open spec fn text_editor_command(os: TargetOs, path: Seq<char>) -> Option<(Seq<char>, Seq<Seq<char>>)> {
    match os {
        TargetOs::MacOs => Some(("open"@, seq!["-t"@, path])),
        TargetOs::Windows => Some(("notepad"@, seq![path])),
        TargetOs::Linux => Some(("xdg-open"@, seq![path])),
        TargetOs::Other => None,
    }
}

/// The command that opens `path` in a text editor, or the message
/// `Unsupported platform` where the platform has none.
pub fn open_text_file_command(os: TargetOs, path: &str) -> (r: Result<Invocation, String>)
    ensures
        match text_editor_command(os, path@) {
            Some((program, args)) => r matches Ok(c) && c.program@ == program && texts(c.args@)
                == args,
            None => r matches Err(m) && m@ == "Unsupported platform"@,
        },
{
    let mut args: Vec<String> = Vec::new();
    let program = match os {
        TargetOs::MacOs => {
            args.push(String::from_str("-t"));
            "open"
        },
        TargetOs::Windows => "notepad",
        TargetOs::Linux => "xdg-open",
        TargetOs::Other => {
            return Err(String::from_str("Unsupported platform"));
        },
    };
    args.push(String::from_str(path));
    let c = Invocation { program: String::from_str(program), args };
    let ghost expected = text_editor_command(os, path@)->0;
    assert(texts(c.args@) =~= expected.1);
    Ok(c)
}


/// Opening a text file passes the path as the last argument, and only on
/// macOS anything before it (`-t`, which selects the text editor); on
/// Linux it is the same command as opening the path with its default
/// application.
pub proof fn lemma_text_file_command_shape(os: TargetOs, path: Seq<char>)
    ensures
        text_editor_command(os, path) matches Some((program, args)) ==> {
            &&& args.len() > 0
            &&& args.last() == path
            &&& (args.len() == 1 <==> os != TargetOs::MacOs)
            &&& (os == TargetOs::MacOs ==> args == seq!["-t"@, path])
        },
        os == TargetOs::Linux ==> text_editor_command(os, path) == Some((open_program(os), seq![path])),
        os == TargetOs::MacOs ==> text_editor_command(os, path) == Some(
            (open_program(os), seq!["-t"@, path]),
        ),
        text_editor_command(os, path) is None <==> os == TargetOs::Other,
{
}

} // verus!
