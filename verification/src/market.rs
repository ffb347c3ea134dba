//! Where the bundled `dshmarket` package is found, where the web profile
//! lives, and how the profile's link to the bundled market is maintained.

use vstd::prelude::*;
use vstd::string::*;
use crate::paths::{bundled_segments, first_existing, opt_text, select_existing, DshPath};

verus! {

/// The patch layer written into a new profile: an empty YAML array.
pub const PROFILE_PATCH_TEMPLATE: &'static str = "# Your patch layer for this dsh profile, applied after every bundle layer:\n# a top-level YAML array of loader patch entries (id-targeted config\n# overrides, disables, and insert lists; `!!js` expressions allowed).\n[]\n";

/// The pnpm workspace configuration written into a new profile.
pub const PROFILE_PNPM_WORKSPACE: &'static str = "packages:\n  - .\n\nnodeLinker: hoisted\nautoInstallPeers: false\n";

fn push_segment(p: &mut DshPath, s: &str)
    ensures
        final(p)@ == old(p)@.push(s@),
{
    p.segments.push(String::from_str(s));
    assert(p@ =~= old(p)@.push(s@));
}

/// The dsh home used for the web profile: `DSH_HOME` when set, else `.dsh`
/// in the home directory the platform reports (empty when unknown).
pub open spec fn profile_home_segments(dsh_home: Option<Seq<char>>, home_dir: Option<Seq<char>>) -> Seq<
    Seq<char>,
> {
    match dsh_home {
        Some(d) => seq![d],
        None => match home_dir {
            Some(h) => seq![h, ".dsh"@],
            None => seq![Seq::empty(), ".dsh"@],
        },
    }
}

/// The web profile directory: `<dsh home>/profiles/web`.
pub open spec fn profile_dir_segments(dsh_home: Option<Seq<char>>, home_dir: Option<Seq<char>>) -> Seq<
    Seq<char>,
> {
    profile_home_segments(dsh_home, home_dir) + seq!["profiles"@, "web"@]
}

/// The web profile directory, from `DSH_HOME` and the home directory.
pub fn profile_dir(dsh_home_env: Option<String>, home_dir: Option<String>) -> (p: DshPath)
    ensures
        p@ == profile_dir_segments(opt_text(dsh_home_env), opt_text(home_dir)),
{
    let mut segments: Vec<String> = Vec::new();
    match dsh_home_env {
        Some(d) => segments.push(d),
        None => {
            match home_dir {
                Some(h) => segments.push(h),
                None => segments.push(String::new()),
            }
            segments.push(String::from_str(".dsh"));
        },
    }
    let mut p = DshPath { segments };
    assert(p@ =~= profile_home_segments(opt_text(dsh_home_env), opt_text(home_dir)));
    push_segment(&mut p, "profiles");
    push_segment(&mut p, "web");
    assert(p@ =~= profile_dir_segments(opt_text(dsh_home_env), opt_text(home_dir)));
    p
}

/// The places the bundled market is looked for, in order: the app
/// resources in their two layouts (when the resource directory is known),
/// then the development `node_modules` beside and above the crate.
pub open spec fn market_candidates(dir: Option<Seq<char>>, manifest_dir: Seq<char>) -> Seq<
    Seq<Seq<char>>,
> {
    let dev = seq![
        seq![manifest_dir, ".."@, "node_modules"@, "dshmarket"@],
        seq![manifest_dir, "../../node_modules/dshmarket"@],
    ];
    match dir {
        Some(d) => seq![
            seq![d, "resources"@, "dsh"@, "node_modules"@, "dshmarket"@],
            seq![d, "_up_"@, "resources"@, "dsh"@, "node_modules"@, "dshmarket"@],
        ] + dev,
        None => dev,
    }
}

fn path_of(first: &str) -> (p: DshPath)
    ensures
        p@ == seq![first@],
{
    let mut segments: Vec<String> = Vec::new();
    segments.push(String::from_str(first));
    let p = DshPath { segments };
    assert(p@ =~= seq![first@]);
    p
}

/// The candidate directories of the bundled market, in search order.
pub fn market_dir_candidates(resource_dir: &Option<String>, manifest_dir: &str) -> (v: Vec<DshPath>)
    ensures
        v@.map_values(|p: DshPath| p@) == market_candidates(opt_text(*resource_dir), manifest_dir@),
{
    let mut v: Vec<DshPath> = Vec::new();
    match resource_dir {
        Some(d) => {
            let mut a = path_of(d.as_str());
            push_segment(&mut a, "resources");
            push_segment(&mut a, "dsh");
            push_segment(&mut a, "node_modules");
            push_segment(&mut a, "dshmarket");
            assert(a@ =~= seq![d@, "resources"@, "dsh"@, "node_modules"@, "dshmarket"@]);
            v.push(a);
            let mut b = path_of(d.as_str());
            push_segment(&mut b, "_up_");
            push_segment(&mut b, "resources");
            push_segment(&mut b, "dsh");
            push_segment(&mut b, "node_modules");
            push_segment(&mut b, "dshmarket");
            assert(b@ =~= seq![d@, "_up_"@, "resources"@, "dsh"@, "node_modules"@, "dshmarket"@]);
            v.push(b);
        },
        None => {},
    }
    let mut c = path_of(manifest_dir);
    push_segment(&mut c, "..");
    push_segment(&mut c, "node_modules");
    push_segment(&mut c, "dshmarket");
    assert(c@ =~= seq![manifest_dir@, ".."@, "node_modules"@, "dshmarket"@]);
    v.push(c);
    let mut e = path_of(manifest_dir);
    push_segment(&mut e, "../../node_modules/dshmarket");
    assert(e@ =~= seq![manifest_dir@, "../../node_modules/dshmarket"@]);
    v.push(e);
    assert(v@.map_values(|p: DshPath| p@) =~= market_candidates(
        opt_text(*resource_dir),
        manifest_dir@,
    ));
    v
}

/// The bundled market: the first candidate directory that holds a
/// `package.json` (`has_package[i]` tells it for candidate `i`).
pub fn resolve_bundled_dshmarket(
    resource_dir: &Option<String>,
    manifest_dir: &str,
    has_package: &Vec<bool>,
) -> (r: Option<DshPath>)
    ensures
        ({
            let c = market_candidates(opt_text(*resource_dir), manifest_dir@);
            match first_existing(has_package@, c.len() as int) {
                Some(i) => r matches Some(p) && p@ == c[i],
                None => r is None,
            }
        }),
{
    select_existing(market_dir_candidates(resource_dir, manifest_dir), has_package)
}

/// What is found at `<profile>/node_modules/dshmarket`.
#[derive(Debug, Clone, Copy, PartialEq, Eq, Structural)]
pub enum MarketLinkState {
    /// Nothing there, not even a symbolic link.
    Missing,
    /// Something is there but its metadata cannot be read.
    Unreadable,
    /// A real directory: the user installed the market themselves.
    Installed,
    /// A symbolic link; `valid` when its target holds a `package.json`. A
    /// link whose target is gone is a link that is not valid.
    Link { valid: bool },
}

/// What is done about the profile's market link.
#[derive(Debug, Clone, Copy, PartialEq, Eq, Structural)]
pub enum MarketLinkAction {
    /// No bundled market was found: nothing can be linked.
    NoBundledMarket,
    /// Leave what is there alone.
    Keep,
    /// Remove the broken link, then link the bundled market.
    Relink,
    /// Link the bundled market.
    Link,
}

/// A user installation and unreadable entries are never touched; a valid
/// link stays; a broken link, dangling ones included, is removed and
/// created again; a missing one is created.
pub open spec fn market_link_decision(bundled_found: bool, state: MarketLinkState) -> MarketLinkAction {
    if !bundled_found {
        MarketLinkAction::NoBundledMarket
    } else {
        match state {
            MarketLinkState::Missing => MarketLinkAction::Link,
            MarketLinkState::Unreadable => MarketLinkAction::Keep,
            MarketLinkState::Installed => MarketLinkAction::Keep,
            MarketLinkState::Link { valid } => if valid {
                MarketLinkAction::Keep
            } else {
                MarketLinkAction::Relink
            },
        }
    }
}

/// Decides how to maintain the profile's link to the bundled market.
pub fn market_link_action(bundled_found: bool, state: MarketLinkState) -> (a: MarketLinkAction)
    ensures
        a == market_link_decision(bundled_found, state),
{
    if !bundled_found {
        return MarketLinkAction::NoBundledMarket;
    }
    match state {
        MarketLinkState::Missing => MarketLinkAction::Link,
        MarketLinkState::Unreadable => MarketLinkAction::Keep,
        MarketLinkState::Installed => MarketLinkAction::Keep,
        MarketLinkState::Link { valid } => if valid {
            MarketLinkAction::Keep
        } else {
            MarketLinkAction::Relink
        },
    }
}


/// With the resource directory `d` known, the market is looked for first in
/// `d/resources/dsh/node_modules/dshmarket`, inside the same bundled dsh
/// package directory that holds the dsh entry point, then in the `_up_`
/// layout's counterpart; the development places come after both. Where the
/// first place holds a `package.json`, it is the one chosen, whatever the
/// other flags say.
pub proof fn lemma_market_inside_bundled_dsh(d: Seq<char>, manifest_dir: Seq<char>, has_package: Seq<bool>)
    ensures
        market_candidates(Some(d), manifest_dir).len() == 4,
        market_candidates(Some(d), manifest_dir)[0] == seq![
            d,
            "resources"@,
            "dsh"@,
            "node_modules"@,
            "dshmarket"@,
        ],
        market_candidates(Some(d), manifest_dir)[0] == bundled_segments(d, false).take(3) + seq![
            "node_modules"@,
            "dshmarket"@,
        ],
        market_candidates(Some(d), manifest_dir)[1] == bundled_segments(d, true).take(4) + seq![
            "node_modules"@,
            "dshmarket"@,
        ],
        market_candidates(Some(d), manifest_dir).skip(2) == market_candidates(None, manifest_dir),
        market_candidates(None, manifest_dir) == seq![
            seq![manifest_dir, ".."@, "node_modules"@, "dshmarket"@],
            seq![manifest_dir, "../../node_modules/dshmarket"@],
        ],
        has_package.len() > 0 && has_package[0] ==> first_existing(
            has_package,
            market_candidates(Some(d), manifest_dir).len() as int,
        ) == Some(0int),
{
    let c = market_candidates(Some(d), manifest_dir);
    assert(c[0] =~= bundled_segments(d, false).take(3) + seq!["node_modules"@, "dshmarket"@]);
    assert(c[1] =~= bundled_segments(d, true).take(4) + seq!["node_modules"@, "dshmarket"@]);
    assert(c.skip(2) =~= market_candidates(None, manifest_dir));
}

} // verus!
