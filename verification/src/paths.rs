//! Resolving the harness entry point `dsh/lib/bin.js`: the candidate paths in
//! search order, and the choice among them once their existence is known.

use vstd::prelude::*;
use vstd::string::*;

verus! {

/// A filesystem path as the segments that are joined to form it, in order:
/// `PathBuf::from(segments[0]).join(segments[1])...`.
#[derive(Debug)]
pub struct DshPath {
    pub segments: Vec<String>,
}

impl View for DshPath {
    type V = Seq<Seq<char>>;

    open spec fn view(&self) -> Seq<Seq<char>> {
        self.segments@.map_values(|s: String| s@)
    }
}

/// The text of an optional string.
pub open spec fn opt_text(o: Option<String>) -> Option<Seq<char>> {
    match o {
        Some(s) => Some(s@),
        None => None,
    }
}

/// The display text of an optional directory: empty when absent.
pub open spec fn dir_display(o: Option<Seq<char>>) -> Seq<char> {
    match o {
        Some(d) => d,
        None => Seq::empty(),
    }
}

/// `Debug` formatting of a string (quoted and escaped), as `format!("{:?}", s)`
/// writes it.
pub uninterp spec fn debug_text(s: Seq<char>) -> Seq<char>;

/// Formats `s` with `format!("{:?}", s)`. Trusted: the result is the text
/// that `debug_text` names.
#[verifier::external_body]
pub(crate) fn debug_quoted(s: &str) -> (r: String)
    ensures
        r@ == debug_text(s@),
{
    format!("{:?}", s)
}

/// `dir/resources/dsh/lib/bin.js`, or `dir/_up_/resources/dsh/lib/bin.js`
/// for the `_up_` layout of bundled resources.
pub open spec fn bundled_segments(dir: Seq<char>, up: bool) -> Seq<Seq<char>> {
    if up {
        seq![dir, "_up_"@, "resources"@, "dsh"@, "lib"@, "bin.js"@]
    } else {
        seq![dir, "resources"@, "dsh"@, "lib"@, "bin.js"@]
    }
}

/// The candidates of the desktop app, in search order: the bundled resource
/// in its two layouts (when the resource directory is known), then the
/// development checkout and its `node_modules`.
pub open spec fn dsh_app_candidates(dir: Option<Seq<char>>) -> Seq<Seq<Seq<char>>> {
    let dev = seq![
        seq!["../resources/dsh/lib/bin.js"@],
        seq!["../node_modules/@deepseek-ai/dsh/lib/bin.js"@],
    ];
    match dir {
        Some(d) => seq![bundled_segments(d, false), bundled_segments(d, true)] + dev,
        None => dev,
    }
}

/// The index of the first of `n` candidates whose existence flag, from
/// index `i` on, is set (flags past the end of `exists` count as unset).
pub open spec fn first_existing_from(exists: Seq<bool>, n: int, i: int) -> Option<int>
    decreases n - i,
{
    if i >= n {
        None
    } else if i < exists.len() && exists[i] {
        Some(i)
    } else {
        first_existing_from(exists, n, i + 1)
    }
}

pub open spec fn first_existing(exists: Seq<bool>, n: int) -> Option<int> {
    first_existing_from(exists, n, 0)
}

/// The index found is in range, its flag is set, and no earlier flag is.
pub proof fn lemma_first_existing_from(exists: Seq<bool>, n: int, i: int)
    requires
        0 <= i,
    ensures
        first_existing_from(exists, n, i) matches Some(k) ==> {
            &&& i <= k < n
            &&& k < exists.len()
            &&& exists[k]
            &&& forall|j: int| i <= j < k && j < exists.len() ==> !exists[j]
        },
        first_existing_from(exists, n, i) is None ==> forall|j: int|
            i <= j < n && j < exists.len() ==> !exists[j],
    decreases n - i,
{
    if i < n {
        lemma_first_existing_from(exists, n, i + 1);
    }
}

/// The message when no candidate exists, listing the places searched.
pub open spec fn dsh_app_not_found_message(dir: Option<Seq<char>>) -> Seq<char> {
    let shown = debug_text(dir_display(dir));
    "dsh not found. Searched:\n  - bundled resource ("@ + shown + "/resources/dsh/lib/bin.js)\n  - bundled resource ("@
        + shown + "/_up_/resources/dsh/lib/bin.js)\n  - ../resources/dsh/lib/bin.js\n  - ../node_modules/@deepseek-ai/dsh/lib/bin.js"@
}

/// No candidate path exists; `message` says where the search looked.
#[derive(Debug)]
pub struct DshNotFound {
    pub message: String,
}

/// A path of one segment.
pub(crate) fn single_segment(s: &str) -> (p: DshPath)
    ensures
        p@ == seq![s@],
{
    let mut segments: Vec<String> = Vec::new();
    segments.push(String::from_str(s));
    let p = DshPath { segments };
    assert(p@ =~= seq![s@]);
    p
}

/// `dir` followed by the relative segments `resources/dsh/lib/bin.js`,
/// with `_up_` first when `up` holds.
pub(crate) fn bundled_path(dir: &String, up: bool) -> (p: DshPath)
    ensures
        p@ == bundled_segments(dir@, up),
{
    let mut segments: Vec<String> = Vec::new();
    segments.push(dir.clone());
    if up {
        segments.push(String::from_str("_up_"));
    }
    segments.push(String::from_str("resources"));
    segments.push(String::from_str("dsh"));
    segments.push(String::from_str("lib"));
    segments.push(String::from_str("bin.js"));
    let p = DshPath { segments };
    assert(p@ =~= bundled_segments(dir@, up));
    p
}

/// The candidate paths of the desktop app, in search order.
pub fn dsh_path_candidates(app_resource_dir: &Option<String>) -> (v: Vec<DshPath>)
    ensures
        v@.map_values(|p: DshPath| p@) == dsh_app_candidates(opt_text(*app_resource_dir)),
{
    let mut v: Vec<DshPath> = Vec::new();
    match app_resource_dir {
        Some(dir) => {
            v.push(bundled_path(dir, false));
            v.push(bundled_path(dir, true));
        },
        None => {},
    }
    v.push(single_segment("../resources/dsh/lib/bin.js"));
    v.push(single_segment("../node_modules/@deepseek-ai/dsh/lib/bin.js"));
    assert(v@.map_values(|p: DshPath| p@) =~= dsh_app_candidates(opt_text(*app_resource_dir)));
    v
}

/// Picks the first candidate whose existence flag is set; `exists[i]`
/// tells whether `candidates[i]` is on disk.
pub fn select_existing(candidates: Vec<DshPath>, exists: &Vec<bool>) -> (r: Option<DshPath>)
    ensures
        match first_existing(exists@, candidates@.len() as int) {
            Some(i) => r matches Some(p) && p@ == candidates@[i]@,
            None => r is None,
        },
        ({
            let c = candidates@.map_values(|p: DshPath| p@);
            match first_existing(exists@, c.len() as int) {
                Some(i) => r matches Some(p) && p@ == c[i],
                None => r is None,
            }
        }),
{
    let r = select_first(candidates, exists);
    proof {
        let c = candidates@;
        assert(c.len() == c.map_values(|p: DshPath| p@).len());
        lemma_first_existing_from(exists@, c.len() as int, 0);
        if r is Some {
            let i = first_existing(exists@, c.len() as int)->0;
            assert(c.map_values(|p: DshPath| p@)[i] == c[i]@);
        }
    }
    r
}

fn select_first(candidates: Vec<DshPath>, exists: &Vec<bool>) -> (r: Option<DshPath>)
    ensures
        match first_existing(exists@, candidates@.len() as int) {
            Some(i) => r matches Some(p) && p@ == candidates@[i]@,
            None => r is None,
        },
{
    let ghost all = candidates@;
    let mut pool = candidates;
    let n = pool.len();
    let mut i: usize = 0;
    while i < n
        invariant
            i <= n,
            n == all.len(),
            pool@ == all,
            all == candidates@,
            first_existing(exists@, n as int) == first_existing_from(exists@, n as int, i as int),
        decreases n - i,
    {
        if i < exists.len() && exists[i] {
            let p = pool.remove(i);
            assert(p == all[i as int]);
            return Some(p);
        }
        i = i + 1;
    }
    None
}

/// The search report of the desktop app for `dir`.
fn dsh_app_message(dir: &Option<String>) -> (m: String)
    ensures
        m@ == dsh_app_not_found_message(opt_text(*dir)),
{
    let shown = match dir {
        Some(d) => debug_quoted(d.as_str()),
        None => debug_quoted(""),
    };
    proof {
        reveal_strlit("");
    }
    assert(shown@ == debug_text(dir_display(opt_text(*dir)))) by {
        if dir.is_none() {
            assert(""@ =~= Seq::<char>::empty());
        }
    }
    let mut m = String::from_str("dsh not found. Searched:\n  - bundled resource (");
    m.append(shown.as_str());
    m.append("/resources/dsh/lib/bin.js)\n  - bundled resource (");
    m.append(shown.as_str());
    m.append(
        "/_up_/resources/dsh/lib/bin.js)\n  - ../resources/dsh/lib/bin.js\n  - ../node_modules/@deepseek-ai/dsh/lib/bin.js",
    );
    m
}

/// Resolves the path to dsh's `lib/bin.js` for the desktop app: the first
/// candidate of `dsh_path_candidates` whose existence flag is set, in the
/// order bundled resource, bundled `_up_` resource, `../resources`,
/// `../node_modules`.
pub fn resolve_dsh_path(app_resource_dir: Option<String>, exists: &Vec<bool>) -> (r: Result<
    DshPath,
    DshNotFound,
>)
    ensures
        ({
            let c = dsh_app_candidates(opt_text(app_resource_dir));
            match first_existing(exists@, c.len() as int) {
                Some(i) => r matches Ok(p) && p@ == c[i],
                None => r matches Err(e) && e.message@ == dsh_app_not_found_message(
                    opt_text(app_resource_dir),
                ),
            }
        }),
{
    match select_existing(dsh_path_candidates(&app_resource_dir), exists) {
        Some(p) => Ok(p),
        None => Err(DshNotFound { message: dsh_app_message(&app_resource_dir) }),
    }
}

} // verus!
