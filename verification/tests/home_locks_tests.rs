use deepseek_desktop::locks::{
    dsh_home, extension_of, is_lock_file_name, lock_entry_action, lock_root, lock_subdirectories,
    LockEntryAction, LockScanDepth,
};
use deepseek_desktop::market::{
    market_link_action, profile_dir, resolve_bundled_dshmarket, MarketLinkAction, MarketLinkState,
    PROFILE_PATCH_TEMPLATE, PROFILE_PNPM_WORKSPACE,
};
use deepseek_desktop::paths::DshPath;

fn segs(p: &DshPath) -> Vec<&str> {
    p.segments.iter().map(|s| s.as_str()).collect()
}

fn o(s: &str) -> Option<String> {
    Some(s.to_string())
}

#[test]
fn extensions_follow_path_rules() {
    assert_eq!(extension_of("a.lock").as_deref(), Some("lock"));
    assert_eq!(extension_of(".lock"), None);
    assert_eq!(extension_of("a"), None);
    assert_eq!(extension_of("a.").as_deref(), Some(""));
    assert_eq!(extension_of("a.b.ledger").as_deref(), Some("ledger"));
    assert_eq!(extension_of(".."), None);
    assert_eq!(extension_of("..lock").as_deref(), Some("lock"));
    for name in ["a.lock", ".lock", "a", "a.", "a.b.ledger", "..lock", "x.tar.gz"] {
        let std_ext = std::path::Path::new(name).extension().map(|e| e.to_string_lossy().to_string());
        assert_eq!(extension_of(name), std_ext, "{}", name);
    }
}

#[test]
fn lock_names() {
    assert!(is_lock_file_name("x.lock"));
    assert!(is_lock_file_name("x.ledger"));
    assert!(!is_lock_file_name(".lock"));
    assert!(!is_lock_file_name("x.lock.bak"));
    assert!(!is_lock_file_name("lock"));
}

#[test]
fn lock_scan_decisions() {
    assert_eq!(lock_entry_action(LockScanDepth::Top, true, true, "a.lock"), LockEntryAction::Skip);
    assert_eq!(lock_entry_action(LockScanDepth::Top, false, true, "d"), LockEntryAction::Descend);
    assert_eq!(lock_entry_action(LockScanDepth::Nested, false, true, "d.lock"), LockEntryAction::Remove);
    assert_eq!(lock_entry_action(LockScanDepth::Nested, false, true, "d"), LockEntryAction::Skip);
    assert_eq!(lock_entry_action(LockScanDepth::Top, false, false, "f.ledger"), LockEntryAction::Remove);
    assert_eq!(lock_entry_action(LockScanDepth::Top, false, false, "f.txt"), LockEntryAction::Skip);
}

#[test]
fn home_directories() {
    assert_eq!(segs(&dsh_home(o("/d"), o("/h"), None)), vec!["/d"]);
    assert_eq!(segs(&dsh_home(None, o("/h"), o("/u"))), vec!["/h", ".dsh"]);
    assert_eq!(segs(&dsh_home(None, None, o("/u"))), vec!["/u", ".dsh"]);
    assert_eq!(segs(&dsh_home(None, None, None)), vec![".", ".dsh"]);
    assert_eq!(lock_root(None, o("/h"), None), "/h/.dsh");
    assert_eq!(lock_root(o("/x"), o("/h"), None), "/x");
    assert_eq!(lock_root(None, None, None), "./.dsh");
    assert_eq!(lock_subdirectories(), vec!["profiles", "task-board", "storages", "sessions"]);
}

#[test]
fn profile_locations() {
    assert_eq!(segs(&profile_dir(None, o("/home/u"))), vec!["/home/u", ".dsh", "profiles", "web"]);
    assert_eq!(segs(&profile_dir(None, None)), vec!["", ".dsh", "profiles", "web"]);
    assert_eq!(segs(&profile_dir(o("/d"), o("/h"))), vec!["/d", "profiles", "web"]);
    let m = resolve_bundled_dshmarket(&o("/r"), "/m", &vec![false, false, true]).unwrap();
    assert_eq!(segs(&m), vec!["/m", "..", "node_modules", "dshmarket"]);
    let m = resolve_bundled_dshmarket(&o("/r"), "/m", &vec![false, true]).unwrap();
    assert_eq!(segs(&m), vec!["/r", "_up_", "resources", "dsh", "node_modules", "dshmarket"]);
    let m = resolve_bundled_dshmarket(&None, "/m", &vec![false, true]).unwrap();
    assert_eq!(segs(&m), vec!["/m", "../../node_modules/dshmarket"]);
    assert!(resolve_bundled_dshmarket(&None, "/m", &vec![false, false]).is_none());
    assert!(PROFILE_PATCH_TEMPLATE.ends_with("[]\n"));
    assert!(PROFILE_PNPM_WORKSPACE.contains("nodeLinker: hoisted"));
}

#[test]
fn market_link_decisions() {
    assert_eq!(market_link_action(false, MarketLinkState::Missing), MarketLinkAction::NoBundledMarket);
    assert_eq!(market_link_action(true, MarketLinkState::Missing), MarketLinkAction::Link);
    assert_eq!(market_link_action(true, MarketLinkState::Installed), MarketLinkAction::Keep);
    assert_eq!(market_link_action(true, MarketLinkState::Unreadable), MarketLinkAction::Keep);
    assert_eq!(market_link_action(true, MarketLinkState::Link { valid: true }), MarketLinkAction::Keep);
    assert_eq!(market_link_action(true, MarketLinkState::Link { valid: false }), MarketLinkAction::Relink);
}
