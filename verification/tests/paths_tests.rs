use deepseek_desktop::desktop;
use deepseek_desktop::paths::{dsh_path_candidates, select_existing, DshPath};
use deepseek_desktop::resolve_dsh_path;

fn segs(p: &DshPath) -> Vec<&str> {
    p.segments.iter().map(|s| s.as_str()).collect()
}

#[test]
fn bundled_up_layout_is_found() {
    let p = resolve_dsh_path(Some("/app".to_string()), &vec![false, true, false, true]).unwrap();
    assert_eq!(segs(&p), vec!["/app", "_up_", "resources", "dsh", "lib", "bin.js"]);
}

#[test]
fn bundled_resource_wins() {
    let p = resolve_dsh_path(Some("/app".to_string()), &vec![true, true, true, true]).unwrap();
    assert_eq!(segs(&p), vec!["/app", "resources", "dsh", "lib", "bin.js"]);
}

#[test]
fn development_fallbacks() {
    let p = resolve_dsh_path(None, &vec![false, true]).unwrap();
    assert_eq!(segs(&p), vec!["../node_modules/@deepseek-ai/dsh/lib/bin.js"]);
    let p = resolve_dsh_path(None, &vec![true]).unwrap();
    assert_eq!(segs(&p), vec!["../resources/dsh/lib/bin.js"]);
}

#[test]
fn not_found_lists_the_search() {
    let e = resolve_dsh_path(Some("/r".to_string()), &vec![]).unwrap_err();
    assert_eq!(
        e.message,
        "dsh not found. Searched:\n  - bundled resource (\"/r\"/resources/dsh/lib/bin.js)\n  - bundled resource (\"/r\"/_up_/resources/dsh/lib/bin.js)\n  - ../resources/dsh/lib/bin.js\n  - ../node_modules/@deepseek-ai/dsh/lib/bin.js"
    );
    let e = resolve_dsh_path(None, &vec![false, false]).unwrap_err();
    assert!(e.message.contains("bundled resource (\"\"/resources"));
}

#[test]
fn candidates_in_order() {
    assert_eq!(dsh_path_candidates(&None).len(), 2);
    let c = dsh_path_candidates(&Some("r".to_string()));
    assert_eq!(c.len(), 4);
    assert_eq!(segs(&c[2]), vec!["../resources/dsh/lib/bin.js"]);
}

#[test]
fn select_first_flagged() {
    let c = dsh_path_candidates(&None);
    assert!(select_existing(c, &vec![false, false]).is_none());
}

#[test]
fn desktop_search() {
    let p = desktop::resolve_dsh_path(Some("/res".to_string()), &vec![false, false, true]).unwrap();
    assert_eq!(segs(&p), vec!["node_modules/@deepseek-ai/dsh/lib/bin.js"]);
    let p = desktop::resolve_dsh_path(Some("/res".to_string()), &vec![true]).unwrap();
    assert_eq!(segs(&p), vec!["/res", "resources", "dsh", "lib", "bin.js"]);
    let e = desktop::resolve_dsh_path(Some("C:\\x".to_string()), &vec![]).unwrap_err();
    assert_eq!(
        e.message,
        "dsh not found. Searched:\n  - bundled resource (\"C:\\\\x\"/resources/dsh/lib/bin.js)\n  - resources/dsh/lib/bin.js\n  - node_modules/@deepseek-ai/dsh/lib/bin.js"
    );
}
