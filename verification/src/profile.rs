//! The dsh web profile: the package manifest written on first run, and the
//! upgrade that adds the bundled `dshmarket` plugin market to an existing one.

use vstd::prelude::*;
use vstd::string::*;
use crate::json::{
    entries_view, find_key, find_member, get_key, items_view, json_parse, json_pretty, json_str,
    json_view, lemma_array_view, lemma_find_key_from, lemma_get_set, lemma_object_view,
    lemma_view_kind, parse_json, render_json_pretty, set_key, set_member, JsonValue, JsonView,
};

verus! {

/// `{"dshmarket": "*"}`-style dependency value: the market at any version.
pub open spec fn any_version() -> JsonView {
    JsonView::Str("*"@)
}

/// The market as a bundle name.
pub open spec fn market_bundle() -> JsonView {
    JsonView::Str("dshmarket"@)
}

/// The `dependencies` member after the upgrade: the market is added to an
/// existing object, any other value is replaced by an object holding only
/// the market.
pub open spec fn dependency_value(existing: Option<JsonView>) -> JsonView {
    match existing {
        Some(JsonView::Object(d)) => JsonView::Object(set_key(d, "dshmarket"@, any_version())),
        _ => JsonView::Object(seq![("dshmarket"@, any_version())]),
    }
}

pub open spec fn with_dependency(e: Seq<(Seq<char>, JsonView)>) -> Seq<(Seq<char>, JsonView)> {
    set_key(e, "dependencies"@, dependency_value(get_key(e, "dependencies"@)))
}

/// `["dshmarket"]`.
pub open spec fn only_market_bundle() -> JsonView {
    JsonView::Array(seq![market_bundle()])
}

/// `{"profile": {"bundles": ["dshmarket"]}}`.
pub open spec fn fresh_dsh_section() -> JsonView {
    JsonView::Object(seq![("profile"@, JsonView::Object(seq![("bundles"@, only_market_bundle())]))])
}

/// The bundle list after the upgrade: the market is appended to an array
/// that lacks it; any other value is replaced by `["dshmarket"]`.
pub open spec fn bundles_value(existing: Option<JsonView>) -> JsonView {
    match existing {
        Some(JsonView::Array(bs)) => if bs.contains(market_bundle()) {
            JsonView::Array(bs)
        } else {
            JsonView::Array(bs.push(market_bundle()))
        },
        _ => only_market_bundle(),
    }
}

/// The members after the bundle step: `dsh.profile.bundles` gains the
/// market when `dsh.profile` is an object; otherwise `dsh` is replaced by
/// a section holding only the market bundle.
pub open spec fn with_bundle(e: Seq<(Seq<char>, JsonView)>) -> Seq<(Seq<char>, JsonView)> {
    match get_key(e, "dsh"@) {
        Some(JsonView::Object(dsh)) => match get_key(dsh, "profile"@) {
            Some(JsonView::Object(prof)) => set_key(
                e,
                "dsh"@,
                JsonView::Object(
                    set_key(
                        dsh,
                        "profile"@,
                        JsonView::Object(
                            set_key(prof, "bundles"@, bundles_value(get_key(prof, "bundles"@))),
                        ),
                    ),
                ),
            ),
            _ => set_key(e, "dsh"@, fresh_dsh_section()),
        },
        _ => set_key(e, "dsh"@, fresh_dsh_section()),
    }
}

/// Whether the manifest already depends on the market.
pub open spec fn has_market_dependency(p: JsonView) -> bool {
    &&& p matches JsonView::Object(e)
    &&& get_key(e, "dependencies"@) matches Some(JsonView::Object(d))
    &&& find_key(d, "dshmarket"@) is Some
}

/// Whether `dsh.profile.bundles` lists the market.
pub open spec fn has_market_bundle(p: JsonView) -> bool {
    &&& p matches JsonView::Object(e)
    &&& get_key(e, "dsh"@) matches Some(JsonView::Object(dsh))
    &&& get_key(dsh, "profile"@) matches Some(JsonView::Object(prof))
    &&& get_key(prof, "bundles"@) matches Some(JsonView::Array(bs))
    &&& bs.contains(market_bundle())
}

/// The members of an object; `null` counts as the empty object.
pub open spec fn object_members(p: JsonView) -> Seq<(Seq<char>, JsonView)> {
    match p {
        JsonView::Object(e) => e,
        _ => Seq::empty(),
    }
}

/// Manifests that the upgrade can edit: objects, and `null` (which the
/// upgrade turns into an object). Editing any other value panics in the
/// JSON library's member assignment.
pub open spec fn upgradable(p: JsonView) -> bool {
    p is Object || p is Null
}

/// The upgraded manifest, or `None` when it already depends on the market
/// and is left alone.
pub open spec fn upgrade_view(p: JsonView) -> Option<JsonView> {
    if has_market_dependency(p) {
        None
    } else {
        Some(JsonView::Object(with_bundle(with_dependency(object_members(p)))))
    }
}

/// The manifest written when the profile is created.
pub open spec fn new_profile_view() -> JsonView {
    JsonView::Object(
        seq![
            ("name"@, JsonView::Str("dsh-profile-web"@)),
            ("private"@, JsonView::Bool(true)),
            ("dependencies"@, JsonView::Object(seq![("dshmarket"@, any_version())])),
            ("dsh"@, JsonView::Object(seq![("profile"@, JsonView::Object(seq![("bundles"@, JsonView::Array(seq![JsonView::Str("@deepseek-ai/dsh-base"@), JsonView::Str("@deepseek-ai/dsh-web-app"@), market_bundle()]))]))])),
        ],
    )
}

/// A one-member object.
fn single_member(key: &str, value: JsonValue) -> (v: JsonValue)
    ensures
        json_view(v) == JsonView::Object(seq![(key@, json_view(value))]),
{
    let mut e: Vec<(String, JsonValue)> = Vec::new();
    let ghost vv = json_view(value);
    e.push((String::from_str(key), value));
    let v = JsonValue::Object(e);
    proof {
        lemma_object_view(e);
        assert(entries_view(e@) =~= seq![(key@, vv)]);
    }
    v
}

/// `["dshmarket"]`.
fn market_bundle_list() -> (v: JsonValue)
    ensures
        json_view(v) == only_market_bundle(),
{
    let mut items: Vec<JsonValue> = Vec::new();
    items.push(json_str("dshmarket"));
    let v = JsonValue::Array(items);
    proof {
        lemma_array_view(items);
        assert(items_view(items@) =~= seq![market_bundle()]);
    }
    v
}

/// `{"profile": {"bundles": ["dshmarket"]}}`.
fn fresh_dsh() -> (v: JsonValue)
    ensures
        json_view(v) == fresh_dsh_section(),
{
    single_member("profile", single_member("bundles", market_bundle_list()))
}

/// Whether `items` holds the string `"dshmarket"`.
fn lists_market(items: &Vec<JsonValue>) -> (b: bool)
    ensures
        b == items_view(items@).contains(market_bundle()),
{
    let wanted = String::from_str("dshmarket");
    let ghost iv = items_view(items@);
    let mut i: usize = 0;
    while i < items.len()
        invariant
            i <= items@.len(),
            iv == items_view(items@),
            wanted@ == "dshmarket"@,
            forall|j: int| 0 <= j < i ==> iv[j] != market_bundle(),
        decreases items@.len() - i,
    {
        match &items[i] {
            JsonValue::Str(s) => {
                if *s == wanted {
                    assert(iv[i as int] == market_bundle());
                    return true;
                }
            },
            _ => {},
        }
        proof {
            lemma_view_kind(items@[i as int]);
        }
        i = i + 1;
    }
    false
}

/// Replaces the member at `i` (which is named `key`) by `(name, value)`.
proof fn lemma_replace_member(
    before: Seq<(String, JsonValue)>,
    after: Seq<(String, JsonValue)>,
    i: int,
    key: Seq<char>,
    value: JsonValue,
)
    requires
        0 <= i < before.len(),
        find_key(entries_view(before), key) == Some(i),
        after == before.remove(i).insert(i, after[i]),
        after[i].0@ == key,
        after[i].1 == value,
    ensures
        entries_view(after) == set_key(entries_view(before), key, json_view(value)),
{
    assert(entries_view(after) =~= entries_view(before).update(i, (key, json_view(value))));
}

/// Adds the market to `dependencies`.
fn add_market_dependency(entries: &mut Vec<(String, JsonValue)>)
    ensures
        entries_view(final(entries)@) == with_dependency(entries_view(old(entries)@)),
{
    let ghost ev = entries_view(entries@);
    match find_member(entries, "dependencies") {
        Some(i) => {
            proof {
                lemma_find_key_from(ev, "dependencies"@, 0);
            }
            let ghost before = entries@;
            let (key, current) = entries.remove(i);
            let ghost cv = json_view(current);
            assert(get_key(ev, "dependencies"@) == Some(cv));
            proof {
                lemma_view_kind(current);
            }
            let updated = match current {
                JsonValue::Object(mut deps) => {
                    proof {
                        lemma_object_view(deps);
                    }
                    set_member(&mut deps, "dshmarket", json_str("*"));
                    let d = JsonValue::Object(deps);
                    proof {
                        lemma_object_view(deps);
                    }
                    d
                },
                _ => single_member("dshmarket", json_str("*")),
            };
            assert(json_view(updated) == dependency_value(Some(cv)));
            let ghost uv = updated;
            entries.insert(i, (key, updated));
            proof {
                lemma_replace_member(before, entries@, i as int, "dependencies"@, uv);
            }
        },
        None => {
            set_member(entries, "dependencies", single_member("dshmarket", json_str("*")));
        },
    }
}

/// Adds the market to a profile's `bundles` member.
fn add_market_to_bundles(prof: &mut Vec<(String, JsonValue)>)
    ensures
        entries_view(final(prof)@) == set_key(
            entries_view(old(prof)@),
            "bundles"@,
            bundles_value(get_key(entries_view(old(prof)@), "bundles"@)),
        ),
{
    let ghost pv = entries_view(prof@);
    match find_member(prof, "bundles") {
        Some(i) => {
            proof {
                lemma_find_key_from(pv, "bundles"@, 0);
            }
            let ghost before = prof@;
            let (key, current) = prof.remove(i);
            let ghost cv = json_view(current);
            assert(get_key(pv, "bundles"@) == Some(cv));
            proof {
                lemma_view_kind(current);
            }
            let updated = match current {
                JsonValue::Array(mut bundles) => {
                    proof {
                        lemma_array_view(bundles);
                    }
                    let ghost old_items = items_view(bundles@);
                    if !lists_market(&bundles) {
                        bundles.push(json_str("dshmarket"));
                        assert(items_view(bundles@) =~= old_items.push(market_bundle()));
                    }
                    let b = JsonValue::Array(bundles);
                    proof {
                        lemma_array_view(bundles);
                    }
                    b
                },
                _ => market_bundle_list(),
            };
            assert(json_view(updated) == bundles_value(Some(cv)));
            let ghost uv = updated;
            prof.insert(i, (key, updated));
            proof {
                lemma_replace_member(before, prof@, i as int, "bundles"@, uv);
            }
        },
        None => {
            set_member(prof, "bundles", market_bundle_list());
        },
    }
}

/// The new `dsh` member: `dsh.profile.bundles` gains the market when
/// `dsh.profile` is an object, and otherwise the section is replaced.
fn updated_dsh_section(current: JsonValue) -> (v: JsonValue)
    ensures
        json_view(v) == (match json_view(current) {
            JsonView::Object(dsh) => match get_key(dsh, "profile"@) {
                Some(JsonView::Object(prof)) => JsonView::Object(
                    set_key(
                        dsh,
                        "profile"@,
                        JsonView::Object(
                            set_key(prof, "bundles"@, bundles_value(get_key(prof, "bundles"@))),
                        ),
                    ),
                ),
                _ => fresh_dsh_section(),
            },
            _ => fresh_dsh_section(),
        }),
{
    proof {
        lemma_view_kind(current);
    }
    match current {
        JsonValue::Object(mut dsh) => {
            proof {
                lemma_object_view(dsh);
            }
            let ghost dv = entries_view(dsh@);
            match find_member(&dsh, "profile") {
                Some(i) => {
                    proof {
                        lemma_find_key_from(dv, "profile"@, 0);
                    }
                    let ghost before = dsh@;
                    let (key, prof_value) = dsh.remove(i);
                    assert(get_key(dv, "profile"@) == Some(json_view(prof_value)));
                    proof {
                        lemma_view_kind(prof_value);
                    }
                    match prof_value {
                        JsonValue::Object(mut prof) => {
                            proof {
                                lemma_object_view(prof);
                            }
                            add_market_to_bundles(&mut prof);
                            let p = JsonValue::Object(prof);
                            proof {
                                lemma_object_view(prof);
                            }
                            let ghost pv = p;
                            dsh.insert(i, (key, p));
                            proof {
                                lemma_replace_member(before, dsh@, i as int, "profile"@, pv);
                            }
                            let d = JsonValue::Object(dsh);
                            proof {
                                lemma_object_view(dsh);
                            }
                            d
                        },
                        _ => fresh_dsh(),
                    }
                },
                None => fresh_dsh(),
            }
        },
        _ => fresh_dsh(),
    }
}

/// Adds the market to `dsh.profile.bundles`.
fn add_market_bundle(entries: &mut Vec<(String, JsonValue)>)
    ensures
        entries_view(final(entries)@) == with_bundle(entries_view(old(entries)@)),
{
    let ghost ev = entries_view(entries@);
    match find_member(entries, "dsh") {
        Some(i) => {
            proof {
                lemma_find_key_from(ev, "dsh"@, 0);
            }
            let ghost before = entries@;
            let (key, current) = entries.remove(i);
            assert(get_key(ev, "dsh"@) == Some(json_view(current)));
            let updated = updated_dsh_section(current);
            let ghost uv = updated;
            entries.insert(i, (key, updated));
            proof {
                lemma_replace_member(before, entries@, i as int, "dsh"@, uv);
            }
        },
        None => {
            set_member(entries, "dsh", fresh_dsh());
        },
    }
}

/// Whether the manifest is an object whose `dependencies` member is an
/// object with a `dshmarket` member.
pub fn has_dshmarket_dependency(pkg: &JsonValue) -> (b: bool)
    ensures
        b == has_market_dependency(json_view(*pkg)),
{
    match pkg {
        JsonValue::Object(entries) => {
            proof {
                lemma_object_view(*entries);
                lemma_find_key_from(entries_view(entries@), "dependencies"@, 0);
            }
            match find_member(entries, "dependencies") {
                Some(i) => {
                    proof {
                        lemma_view_kind(entries@[i as int].1);
                    }
                    match &entries[i].1 {
                        JsonValue::Object(deps) => {
                            proof {
                                lemma_object_view(*deps);
                            }
                            find_member(deps, "dshmarket").is_some()
                        },
                        _ => false,
                    }
                },
                None => false,
            }
        },
        _ => false,
    }
}

/// Upgrades an existing profile manifest so that the market is a
/// dependency and a bundle. Returns `None` when the manifest already
/// depends on the market (it is then left as it is).
pub fn upgrade_profile_package(pkg: JsonValue) -> (r: Option<JsonValue>)
    requires
        upgradable(json_view(pkg)),
    ensures
        match upgrade_view(json_view(pkg)) {
            None => r is None,
            Some(q) => r matches Some(v) && json_view(v) == q,
        },
{
    if has_dshmarket_dependency(&pkg) {
        return None;
    }
    proof {
        lemma_view_kind(pkg);
    }
    let mut entries: Vec<(String, JsonValue)> = match pkg {
        JsonValue::Object(e) => {
            proof {
                lemma_object_view(e);
            }
            e
        },
        _ => Vec::new(),
    };
    assert(entries_view(entries@) =~= object_members(json_view(pkg)));
    add_market_dependency(&mut entries);
    add_market_bundle(&mut entries);
    let v = JsonValue::Object(entries);
    proof {
        lemma_object_view(entries);
    }
    Some(v)
}

fn member(key: &str, value: JsonValue) -> (m: (String, JsonValue))
    ensures
        m.0@ == key@,
        m.1 == value,
{
    (String::from_str(key), value)
}

/// The manifest of a new profile: named `dsh-profile-web`, private,
/// depending on the market at any version and bundling the dsh base, the
/// dsh web app and the market.
pub fn new_profile_package() -> (v: JsonValue)
    ensures
        json_view(v) == new_profile_view(),
{
    let mut bundles: Vec<JsonValue> = Vec::new();
    bundles.push(json_str("@deepseek-ai/dsh-base"));
    bundles.push(json_str("@deepseek-ai/dsh-web-app"));
    bundles.push(json_str("dshmarket"));
    let ghost bv = bundles@;
    let bundle_list = JsonValue::Array(bundles);
    proof {
        lemma_array_view(bundles);
        assert(items_view(bv) =~= seq![
            JsonView::Str("@deepseek-ai/dsh-base"@),
            JsonView::Str("@deepseek-ai/dsh-web-app"@),
            market_bundle(),
        ]);
    }
    let dsh = single_member("profile", single_member("bundles", bundle_list));
    let deps = single_member("dshmarket", json_str("*"));
    let mut entries: Vec<(String, JsonValue)> = Vec::new();
    entries.push(member("name", json_str("dsh-profile-web")));
    entries.push(member("private", JsonValue::Bool(true)));
    entries.push(member("dependencies", deps));
    entries.push(member("dsh", dsh));
    let v = JsonValue::Object(entries);
    proof {
        lemma_object_view(entries);
        assert(entries_view(entries@) =~= object_members(new_profile_view()));
    }
    v
}

proof fn lemma_names_differ()
    ensures
        "dsh"@ != "dependencies"@,
        "name"@ != "dependencies"@,
        "private"@ != "dependencies"@,
{
    reveal_strlit("dsh");
    reveal_strlit("dependencies");
    reveal_strlit("name");
    reveal_strlit("private");
    assert("dsh"@.len() != "dependencies"@.len());
    assert("name"@.len() != "dependencies"@.len());
    assert("private"@.len() != "dependencies"@.len());
}

/// Looking up the only member of a one-member object.
proof fn lemma_get_single(key: Seq<char>, v: JsonView)
    ensures
        get_key(seq![(key, v)], key) == Some(v),
{
    reveal_with_fuel(crate::json::find_key_from, 2);
}

/// The bundle step sets `dsh` and nothing else.
proof fn lemma_with_bundle_sets_dsh(e: Seq<(Seq<char>, JsonView)>)
    ensures
        exists|x: JsonView| with_bundle(e) == set_key(e, "dsh"@, x) && has_market_bundle(JsonView::Object(set_key(e, "dsh"@, x))),
{
    lemma_get_single("bundles"@, only_market_bundle());
    lemma_get_single("profile"@, JsonView::Object(seq![("bundles"@, only_market_bundle())]));
    assert(seq![market_bundle()][0] == market_bundle());
    match get_key(e, "dsh"@) {
        Some(JsonView::Object(dsh)) => match get_key(dsh, "profile"@) {
            Some(JsonView::Object(prof)) => {
                let b = bundles_value(get_key(prof, "bundles"@));
                let x = JsonView::Object(
                    set_key(dsh, "profile"@, JsonView::Object(set_key(prof, "bundles"@, b))),
                );
                lemma_get_set(e, "dsh"@, x, "dsh"@);
                lemma_get_set(dsh, "profile"@, JsonView::Object(set_key(prof, "bundles"@, b)), "profile"@);
                lemma_get_set(prof, "bundles"@, b, "bundles"@);
                match get_key(prof, "bundles"@) {
                    Some(JsonView::Array(bs)) => {
                        if !bs.contains(market_bundle()) {
                            assert(bs.push(market_bundle())[bs.len() as int] == market_bundle());
                        }
                    },
                    _ => {},
                }
                assert(has_market_bundle(JsonView::Object(set_key(e, "dsh"@, x))));
            },
            _ => {
                lemma_get_set(e, "dsh"@, fresh_dsh_section(), "dsh"@);
            },
        },
        _ => {
            lemma_get_set(e, "dsh"@, fresh_dsh_section(), "dsh"@);
        },
    }
}

/// What becomes of the text of an existing profile manifest.
#[derive(Debug)]
pub enum ProfileTextEdit {
    /// The text is not JSON: the manifest is left as it is.
    Unparsable,
    /// The manifest already depends on the market: nothing to write.
    UpToDate,
    /// The manifest is neither an object nor `null`; its members cannot be
    /// assigned.
    NotEditable,
    /// The upgraded manifest, as text to write back.
    Upgraded(String),
    /// The upgraded manifest holds a number that cannot be written back.
    Unwritable,
}

/// The edit that `upgrade_profile_text` makes of `text`.
pub open spec fn profile_text_edit(text: Seq<char>, r: ProfileTextEdit) -> bool {
    match json_parse(text) {
        None => r is Unparsable,
        Some(p) => if has_market_dependency(p) {
            r is UpToDate
        } else if !upgradable(p) {
            r is NotEditable
        } else {
            match json_pretty(upgrade_view(p)->0) {
                Some(t) => r matches ProfileTextEdit::Upgraded(s) && s@ == t,
                None => r is Unwritable,
            }
        },
    }
}

/// Reads an existing manifest's text, upgrades it so that the market is a
/// dependency and a bundle, and writes the result back as pretty-printed
/// JSON.
pub fn upgrade_profile_text(text: &str) -> (r: ProfileTextEdit)
    ensures
        profile_text_edit(text@, r),
{
    let pkg = match parse_json(text) {
        None => return ProfileTextEdit::Unparsable,
        Some(v) => v,
    };
    if has_dshmarket_dependency(&pkg) {
        return ProfileTextEdit::UpToDate;
    }
    let editable = match &pkg {
        JsonValue::Object(_) => true,
        JsonValue::Null => true,
        _ => false,
    };
    proof {
        lemma_view_kind(pkg);
    }
    if !editable {
        return ProfileTextEdit::NotEditable;
    }
    match upgrade_profile_package(pkg) {
        None => ProfileTextEdit::UpToDate,
        Some(updated) => match render_json_pretty(&updated) {
            Some(t) => ProfileTextEdit::Upgraded(t),
            None => ProfileTextEdit::Unwritable,
        },
    }
}

/// The text of a new profile's manifest, pretty-printed; `None` only where
/// it cannot be written.
pub fn new_profile_text() -> (r: Option<String>)
    ensures
        json_pretty(new_profile_view()) == (match r {
            Some(t) => Some(t@),
            None => None::<Seq<char>>,
        }),
{
    let v = new_profile_package();
    render_json_pretty(&v)
}

/// An upgraded manifest depends on the market and bundles it, so upgrading
/// it again changes nothing: the upgrade that runs on every launch is a
/// no-op after the first.
pub proof fn lemma_upgrade_is_idempotent(p: JsonView)
    requires
        upgradable(p),
        upgrade_view(p) is Some,
    ensures
        has_market_dependency(upgrade_view(p)->0),
        has_market_bundle(upgrade_view(p)->0),
        upgrade_view(upgrade_view(p)->0) is None,
{
    let e = object_members(p);
    let dv = dependency_value(get_key(e, "dependencies"@));
    let e1 = with_dependency(e);
    lemma_get_set(e, "dependencies"@, dv, "dependencies"@);
    match get_key(e, "dependencies"@) {
        Some(JsonView::Object(d)) => {
            lemma_get_set(d, "dshmarket"@, any_version(), "dshmarket"@);
        },
        _ => {
            lemma_get_single("dshmarket"@, any_version());
        },
    }
    lemma_with_bundle_sets_dsh(e1);
    let x = choose|x: JsonView| with_bundle(e1) == set_key(e1, "dsh"@, x) && has_market_bundle(JsonView::Object(set_key(e1, "dsh"@, x)));
    lemma_names_differ();
    lemma_get_set(e1, "dsh"@, x, "dependencies"@);
}

/// The upgrade touches only `dependencies` and `dsh`: every other member
/// of the manifest keeps its value.
pub proof fn lemma_upgrade_keeps_other_members(p: JsonView, k: Seq<char>)
    requires
        upgradable(p),
        upgrade_view(p) is Some,
        k != "dependencies"@,
        k != "dsh"@,
    ensures
        get_key(object_members(upgrade_view(p)->0), k) == get_key(object_members(p), k),
{
    let e = object_members(p);
    let e1 = with_dependency(e);
    lemma_get_set(e, "dependencies"@, dependency_value(get_key(e, "dependencies"@)), k);
    lemma_with_bundle_sets_dsh(e1);
    let x = choose|x: JsonView| with_bundle(e1) == set_key(e1, "dsh"@, x) && has_market_bundle(JsonView::Object(set_key(e1, "dsh"@, x)));
    lemma_get_set(e1, "dsh"@, x, k);
}

/// A freshly created profile already depends on the market, so the upgrade
/// leaves it alone.
pub proof fn lemma_new_profile_needs_no_upgrade()
    ensures
        has_market_dependency(new_profile_view()),
        upgrade_view(new_profile_view()) is None,
{
    lemma_names_differ();
    reveal_with_fuel(crate::json::find_key_from, 4);
    lemma_get_single("dshmarket"@, any_version());
}

} // verus!
