//! The dsh home directory and the stale lock files left in it by earlier
//! sessions: which directories are scanned and which entries are removed.

use vstd::prelude::*;
use vstd::string::*;
use crate::paths::{opt_text, DshPath};
use crate::platform::texts;

verus! {

/// The home directory of the user: `HOME`, else `USERPROFILE`, else `.`.
pub open spec fn home_base(home: Option<Seq<char>>, userprofile: Option<Seq<char>>) -> Seq<char> {
    match home {
        Some(h) => h,
        None => match userprofile {
            Some(u) => u,
            None => "."@,
        },
    }
}

fn home_base_string(home_env: Option<String>, userprofile_env: Option<String>) -> (s: String)
    ensures
        s@ == home_base(opt_text(home_env), opt_text(userprofile_env)),
{
    match home_env {
        Some(h) => h,
        None => match userprofile_env {
            Some(u) => u,
            None => String::from_str("."),
        },
    }
}

/// The dsh home directory: `DSH_HOME` when set, else `.dsh` in the user's
/// home directory.
pub open spec fn dsh_home_segments(
    dsh_home: Option<Seq<char>>,
    home: Option<Seq<char>>,
    userprofile: Option<Seq<char>>,
) -> Seq<Seq<char>> {
    match dsh_home {
        Some(d) => seq![d],
        None => seq![home_base(home, userprofile), ".dsh"@],
    }
}

/// The dsh home directory from the values of the environment variables
/// `DSH_HOME`, `HOME` and `USERPROFILE` (`None` where unset).
pub fn dsh_home(
    dsh_home_env: Option<String>,
    home_env: Option<String>,
    userprofile_env: Option<String>,
) -> (p: DshPath)
    ensures
        p@ == dsh_home_segments(opt_text(dsh_home_env), opt_text(home_env), opt_text(userprofile_env)),
{
    let mut segments: Vec<String> = Vec::new();
    match dsh_home_env {
        Some(d) => {
            segments.push(d);
        },
        None => {
            segments.push(home_base_string(home_env, userprofile_env));
            segments.push(String::from_str(".dsh"));
        },
    }
    let p = DshPath { segments };
    assert(p@ =~= dsh_home_segments(
        opt_text(dsh_home_env),
        opt_text(home_env),
        opt_text(userprofile_env),
    ));
    p
}

/// The directory scanned for stale locks: `DSH_HOME`, else `<home>/.dsh`.
pub open spec fn lock_root_text(
    dsh_home: Option<Seq<char>>,
    home: Option<Seq<char>>,
    userprofile: Option<Seq<char>>,
) -> Seq<char> {
    match dsh_home {
        Some(d) => d,
        None => home_base(home, userprofile) + "/.dsh"@,
    }
}

/// The directory scanned for stale locks, from the values of `DSH_HOME`,
/// `HOME` and `USERPROFILE`.
pub fn lock_root(
    dsh_home_env: Option<String>,
    home_env: Option<String>,
    userprofile_env: Option<String>,
) -> (s: String)
    ensures
        s@ == lock_root_text(opt_text(dsh_home_env), opt_text(home_env), opt_text(userprofile_env)),
{
    match dsh_home_env {
        Some(d) => d,
        None => {
            let mut s = home_base_string(home_env, userprofile_env);
            s.append("/.dsh");
            s
        },
    }
}

/// The subdirectories of the dsh home that may hold lock files.
pub open spec fn lock_subdirectory_names() -> Seq<Seq<char>> {
    seq!["profiles"@, "task-board"@, "storages"@, "sessions"@]
}

/// The subdirectories of the dsh home that are scanned for lock files.
pub fn lock_subdirectories() -> (v: Vec<String>)
    ensures
        texts(v@) == lock_subdirectory_names(),
{
    let mut v: Vec<String> = Vec::new();
    v.push(String::from_str("profiles"));
    v.push(String::from_str("task-board"));
    v.push(String::from_str("storages"));
    v.push(String::from_str("sessions"));
    assert(texts(v@) =~= lock_subdirectory_names());
    v
}

/// The index of the last `c` in `s`.
pub open spec fn last_index_of(s: Seq<char>, c: char) -> Option<int>
    decreases s.len(),
{
    if s.len() == 0 {
        None
    } else if s.last() == c {
        Some(s.len() - 1)
    } else {
        last_index_of(s.drop_last(), c)
    }
}

/// The extension of a file name, as `Path::extension` gives it: the text
/// after the last `.`, unless there is no `.`, or the only `.` starts the
/// name, or the name is `..`.
pub open spec fn file_extension(name: Seq<char>) -> Option<Seq<char>> {
    if name == ".."@ {
        None
    } else {
        match last_index_of(name, '.') {
            Some(k) => if k == 0 {
                None
            } else {
                Some(name.skip(k + 1))
            },
            None => None,
        }
    }
}

/// Whether a file name marks a lock: its extension is `lock` or `ledger`.
pub open spec fn is_lock_name(name: Seq<char>) -> bool {
    file_extension(name) == Some("lock"@) || file_extension(name) == Some("ledger"@)
}

proof fn lemma_last_index_is(s: Seq<char>, c: char, k: int)
    requires
        -1 <= k < s.len(),
        k >= 0 ==> s[k] == c,
        forall|j: int| k < j < s.len() ==> s[j] != c,
    ensures
        last_index_of(s, c) == (if k >= 0 {
            Some(k)
        } else {
            None::<int>
        }),
    decreases s.len(),
{
    if s.len() > 0 && s.last() != c {
        lemma_last_index_is(s.drop_last(), c, k);
    }
}

/// The extension of `name`, as `Path::extension` gives it.
pub fn extension_of(name: &str) -> (r: Option<String>)
    ensures
        match file_extension(name@) {
            Some(e) => r matches Some(x) && x@ == e,
            None => r is None,
        },
{
    let n = name.unicode_len();
    let dots = String::from_str("..");
    let whole = String::from_str(name);
    if whole == dots {
        return None;
    }
    assert(name@ != ".."@);
    let mut i: usize = n;
    while i > 0
        invariant
            i <= n,
            n == name@.len(),
            name@ != ".."@,
            forall|j: int| i <= j < n ==> name@[j] != '.',
        decreases i,
    {
        if name.get_char(i - 1) == '.' {
            proof {
                lemma_last_index_is(name@, '.', i - 1);
            }
            if i - 1 == 0 {
                return None;
            }
            let e = String::from_str(name.substring_char(i, n));
            assert(name@.subrange(i as int, n as int) =~= name@.skip(i as int));
            return Some(e);
        }
        i = i - 1;
    }
    proof {
        lemma_last_index_is(name@, '.', -1);
    }
    None
}

/// Whether `name` is the name of a lock file (`*.lock` or `*.ledger`).
pub fn is_lock_file_name(name: &str) -> (b: bool)
    ensures
        b == is_lock_name(name@),
{
    match extension_of(name) {
        Some(e) => {
            let lock = String::from_str("lock");
            let ledger = String::from_str("ledger");
            e == lock || e == ledger
        },
        None => false,
    }
}

/// Where a directory entry lies below a scanned subdirectory.
#[derive(Debug, Clone, Copy, PartialEq, Eq, Structural)]
pub enum LockScanDepth {
    /// Directly in a scanned subdirectory.
    Top,
    /// One level further down.
    Nested,
}

/// What the scan does with a directory entry.
#[derive(Debug, Clone, Copy, PartialEq, Eq, Structural)]
pub enum LockEntryAction {
    /// Leave it alone.
    Skip,
    /// Scan the directory's entries (one level down).
    Descend,
    /// Remove it: it is a stale lock file.
    Remove,
}

/// Symbolic links are never followed; top-level directories are scanned
/// one level down; lock files are removed at either level.
pub open spec fn lock_entry_decision(
    depth: LockScanDepth,
    is_symlink: bool,
    is_dir: bool,
    name: Seq<char>,
) -> LockEntryAction {
    if is_symlink {
        LockEntryAction::Skip
    } else if depth == LockScanDepth::Top && is_dir {
        LockEntryAction::Descend
    } else if is_lock_name(name) {
        LockEntryAction::Remove
    } else {
        LockEntryAction::Skip
    }
}

/// Decides what the stale lock scan does with an entry named `name`.
/// `is_symlink` is whether its own metadata (not following links) says it
/// is a symbolic link; `is_dir` whether it is a directory.
pub fn lock_entry_action(depth: LockScanDepth, is_symlink: bool, is_dir: bool, name: &str) -> (r:
    LockEntryAction)
    ensures
        r == lock_entry_decision(depth, is_symlink, is_dir, name@),
{
    if is_symlink {
        LockEntryAction::Skip
    } else if depth == LockScanDepth::Top && is_dir {
        LockEntryAction::Descend
    } else if is_lock_file_name(name) {
        LockEntryAction::Remove
    } else {
        LockEntryAction::Skip
    }
}


/// Outside the directories that the scan descends into, an entry that is
/// not a symbolic link is removed exactly when its extension is `lock` or
/// `ledger`, at either depth; such an entry is never descended into.
pub proof fn lemma_lock_files_removed_at_any_depth(depth: LockScanDepth, is_dir: bool, name: Seq<char>)
    requires
        !(depth == LockScanDepth::Top && is_dir),
    ensures
        lock_entry_decision(depth, false, is_dir, name) == LockEntryAction::Remove <==> (
        file_extension(name) == Some("lock"@) || file_extension(name) == Some("ledger"@)),
        lock_entry_decision(depth, false, is_dir, name) != LockEntryAction::Descend,
{
}

/// Symbolic links are left alone, whatever their name and depth.
pub proof fn lemma_symlinks_never_touched(depth: LockScanDepth, is_dir: bool, name: Seq<char>)
    ensures
        lock_entry_decision(depth, true, is_dir, name) == LockEntryAction::Skip,
{
}

proof fn lemma_extension_after_stem(stem: Seq<char>, ext: Seq<char>)
    requires
        stem.len() > 0,
        ext.len() > 0,
        forall|j: int| 0 <= j < ext.len() ==> ext[j] != '.',
    ensures
        file_extension(stem + seq!['.'] + ext) == Some(ext),
{
    let name = stem + seq!['.'] + ext;
    let k = stem.len() as int;
    assert(name[k] == '.');
    assert forall|j: int| k < j < name.len() implies name[j] != '.' by {
        assert(name[j] == ext[j - k - 1]);
    }
    lemma_last_index_is(name, '.', k);
    reveal_strlit("..");
    assert(name != ".."@) by {
        assert(name.len() >= 3);
    }
    assert(name.skip(k + 1) =~= ext);
}

/// A file named `<stem>.lock` or `<stem>.ledger`, with a stem that is not
/// empty, is removed wherever the scan meets it outside a directory it
/// descends into: directly in a scanned subdirectory or one level down.
pub proof fn lemma_named_lock_files_removed(depth: LockScanDepth, is_dir: bool, stem: Seq<char>)
    requires
        stem.len() > 0,
        !(depth == LockScanDepth::Top && is_dir),
    ensures
        lock_entry_decision(depth, false, is_dir, stem + ".lock"@) == LockEntryAction::Remove,
        lock_entry_decision(depth, false, is_dir, stem + ".ledger"@) == LockEntryAction::Remove,
{
    reveal_strlit(".lock");
    reveal_strlit("lock");
    reveal_strlit(".ledger");
    reveal_strlit("ledger");
    assert(stem + ".lock"@ =~= stem + seq!['.'] + "lock"@);
    assert(stem + ".ledger"@ =~= stem + seq!['.'] + "ledger"@);
    lemma_extension_after_stem(stem, "lock"@);
    lemma_extension_after_stem(stem, "ledger"@);
}

} // verus!
