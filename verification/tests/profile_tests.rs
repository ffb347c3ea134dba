use deepseek_desktop::json::{parse_json, render_json_pretty, JsonValue};
use deepseek_desktop::profile::{new_profile_text, upgrade_profile_text, ProfileTextEdit};
use deepseek_desktop::profile::{has_dshmarket_dependency, new_profile_package, upgrade_profile_package};

fn obj(entries: Vec<(&str, JsonValue)>) -> JsonValue {
    JsonValue::Object(entries.into_iter().map(|(k, v)| (k.to_string(), v)).collect())
}

fn s(t: &str) -> JsonValue {
    JsonValue::Str(t.to_string())
}

fn get<'a>(v: &'a JsonValue, key: &str) -> Option<&'a JsonValue> {
    match v {
        JsonValue::Object(e) => e.iter().find(|(k, _)| k == key).map(|(_, v)| v),
        _ => None,
    }
}

fn strings(v: &JsonValue) -> Vec<String> {
    match v {
        JsonValue::Array(items) => items
            .iter()
            .map(|i| match i {
                JsonValue::Str(t) => t.clone(),
                other => format!("{:?}", other),
            })
            .collect(),
        other => panic!("not an array: {:?}", other),
    }
}

fn bundles(v: &JsonValue) -> Vec<String> {
    strings(get(get(get(v, "dsh").unwrap(), "profile").unwrap(), "bundles").unwrap())
}

fn is_str(v: Option<&JsonValue>, t: &str) -> bool {
    matches!(v, Some(JsonValue::Str(x)) if x == t)
}

#[test]
fn new_profile_needs_no_upgrade() {
    let p = new_profile_package();
    assert!(has_dshmarket_dependency(&p));
    assert!(is_str(get(&p, "name"), "dsh-profile-web"));
    assert!(matches!(get(&p, "private"), Some(JsonValue::Bool(true))));
    assert_eq!(bundles(&p), vec!["@deepseek-ai/dsh-base", "@deepseek-ai/dsh-web-app", "dshmarket"]);
    assert!(upgrade_profile_package(p).is_none());
}

#[test]
fn empty_and_null_manifests_gain_the_market() {
    for p in [obj(vec![]), JsonValue::Null] {
        let q = upgrade_profile_package(p).unwrap();
        assert!(is_str(get(get(&q, "dependencies").unwrap(), "dshmarket"), "*"));
        assert_eq!(bundles(&q), vec!["dshmarket"]);
        assert!(upgrade_profile_package(q).is_none());
    }
}

#[test]
fn existing_members_are_kept() {
    let p = obj(vec![
        ("name", s("mine")),
        ("dependencies", obj(vec![("a", s("1"))])),
        ("dsh", obj(vec![("profile", obj(vec![("bundles", JsonValue::Array(vec![s("x")]))])), ("other", JsonValue::Number("1".to_string()))])),
    ]);
    let q = upgrade_profile_package(p).unwrap();
    assert!(is_str(get(&q, "name"), "mine"));
    let deps = get(&q, "dependencies").unwrap();
    assert!(is_str(get(deps, "a"), "1"));
    assert!(is_str(get(deps, "dshmarket"), "*"));
    assert_eq!(bundles(&q), vec!["x", "dshmarket"]);
    assert!(matches!(get(get(&q, "dsh").unwrap(), "other"), Some(JsonValue::Number(n)) if n == "1"));
}

#[test]
fn non_object_dependencies_are_replaced() {
    let q = upgrade_profile_package(obj(vec![("dependencies", s("none"))])).unwrap();
    match get(&q, "dependencies").unwrap() {
        JsonValue::Object(e) => assert_eq!(e.len(), 1),
        other => panic!("{:?}", other),
    }
}

#[test]
fn listed_bundle_is_not_repeated() {
    let p = obj(vec![("dsh", obj(vec![("profile", obj(vec![("bundles", JsonValue::Array(vec![s("dshmarket")]))]))]))]);
    let q = upgrade_profile_package(p).unwrap();
    assert_eq!(bundles(&q), vec!["dshmarket"]);
}

#[test]
fn malformed_sections_are_replaced() {
    let p = obj(vec![("dsh", obj(vec![("profile", s("web")), ("keep", s("no"))]))]);
    let q = upgrade_profile_package(p).unwrap();
    assert_eq!(bundles(&q), vec!["dshmarket"]);
    assert!(get(get(&q, "dsh").unwrap(), "keep").is_none());
    let p = obj(vec![("dsh", obj(vec![("profile", obj(vec![("bundles", s("x")), ("id", s("p"))]))]))]);
    let q = upgrade_profile_package(p).unwrap();
    assert_eq!(bundles(&q), vec!["dshmarket"]);
    assert!(is_str(get(get(get(&q, "dsh").unwrap(), "profile").unwrap(), "id"), "p"));
}

#[test]
fn market_dependency_means_no_change() {
    let p = obj(vec![("dependencies", obj(vec![("dshmarket", s("1.0.0"))]))]);
    assert!(has_dshmarket_dependency(&p));
    assert!(upgrade_profile_package(p).is_none());
    assert!(!has_dshmarket_dependency(&obj(vec![("dependencies", JsonValue::Array(vec![]))])));
}

#[test]
fn parse_json_reads_documents() {
    assert_eq!(parse_json("not json").is_none(), true);
    let v = parse_json("{\"b\": 1.5, \"a\": [true, null, \"x\"]}").unwrap();
    match v {
        JsonValue::Object(e) => {
            assert_eq!(e.len(), 2);
            assert_eq!(e[0].0, "a");
            assert_eq!(e[1].0, "b");
            assert!(matches!(&e[1].1, JsonValue::Number(n) if n == "1.5"));
            match &e[0].1 {
                JsonValue::Array(items) => {
                    assert!(matches!(items[0], JsonValue::Bool(true)));
                    assert!(matches!(items[1], JsonValue::Null));
                    assert!(matches!(&items[2], JsonValue::Str(t) if t == "x"));
                }
                _ => panic!("expected an array"),
            }
        }
        _ => panic!("expected an object"),
    }
}

#[test]
fn render_json_pretty_writes_documents() {
    let v = obj(vec![("a", JsonValue::Number("2".to_string())), ("b", s("x"))]);
    assert_eq!(render_json_pretty(&v).unwrap(), "{\n  \"a\": 2,\n  \"b\": \"x\"\n}");
    assert_eq!(render_json_pretty(&JsonValue::Number("not a number".to_string())), None);
}

fn pretty(text: &str) -> String {
    serde_json::to_string_pretty(&serde_json::from_str::<serde_json::Value>(text).unwrap()).unwrap()
}

#[test]
fn profile_text_is_upgraded() {
    assert!(matches!(upgrade_profile_text("{ nope"), ProfileTextEdit::Unparsable));
    assert!(matches!(upgrade_profile_text("[1, 2]"), ProfileTextEdit::NotEditable));
    assert!(matches!(
        upgrade_profile_text("{\"dependencies\": {\"dshmarket\": \"^1\"}}"),
        ProfileTextEdit::UpToDate
    ));
    match upgrade_profile_text("{\"name\": \"p\", \"dependencies\": {\"zod\": \"3\"}}") {
        ProfileTextEdit::Upgraded(t) => assert_eq!(
            t,
            pretty(
                "{\"name\": \"p\", \"dependencies\": {\"zod\": \"3\", \"dshmarket\": \"*\"}, \
                 \"dsh\": {\"profile\": {\"bundles\": [\"dshmarket\"]}}}"
            )
        ),
        other => panic!("unexpected {:?}", other),
    }
    match upgrade_profile_text("null") {
        ProfileTextEdit::Upgraded(t) => assert_eq!(
            t,
            pretty("{\"dependencies\": {\"dshmarket\": \"*\"}, \"dsh\": {\"profile\": {\"bundles\": [\"dshmarket\"]}}}")
        ),
        other => panic!("unexpected {:?}", other),
    }
}

#[test]
fn new_profile_text_is_the_new_manifest() {
    assert_eq!(
        new_profile_text().unwrap(),
        pretty(
            "{\"name\": \"dsh-profile-web\", \"private\": true, \"dependencies\": {\"dshmarket\": \"*\"}, \
             \"dsh\": {\"profile\": {\"bundles\": [\"@deepseek-ai/dsh-base\", \"@deepseek-ai/dsh-web-app\", \"dshmarket\"]}}}"
        )
    );
}
