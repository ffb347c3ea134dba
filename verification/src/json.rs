//! A JSON document model: values as the desktop shell reads and edits them,
//! their mathematical view, and object lookup and update.

use vstd::prelude::*;
use vstd::string::*;

verus! {

/// A JSON value. Numbers keep their text; object members keep their order.
#[derive(Debug)]
pub enum JsonValue {
    Null,
    Bool(bool),
    Number(String),
    Str(String),
    Array(Vec<JsonValue>),
    Object(Vec<(String, JsonValue)>),
}

/// The mathematical content of a JSON value.
pub enum JsonView {
    Null,
    Bool(bool),
    Number(Seq<char>),
    Str(Seq<char>),
    Array(Seq<JsonView>),
    Object(Seq<(Seq<char>, JsonView)>),
}

pub open spec fn json_view(v: JsonValue) -> JsonView
    decreases v,
{
    match v {
        JsonValue::Null => JsonView::Null,
        JsonValue::Bool(b) => JsonView::Bool(b),
        JsonValue::Number(n) => JsonView::Number(n@),
        JsonValue::Str(s) => JsonView::Str(s@),
        JsonValue::Array(items) => JsonView::Array(
            Seq::new(
                items@.len(),
                |i: int|
                    if 0 <= i < items@.len() {
                        json_view(items@[i])
                    } else {
                        JsonView::Null
                    },
            ),
        ),
        JsonValue::Object(entries) => JsonView::Object(
            Seq::new(
                entries@.len(),
                |i: int|
                    if 0 <= i < entries@.len() {
                        (entries@[i].0@, json_view(entries@[i].1))
                    } else {
                        (Seq::empty(), JsonView::Null)
                    },
            ),
        ),
    }
}

/// The view of an object's members.
pub open spec fn entries_view(e: Seq<(String, JsonValue)>) -> Seq<(Seq<char>, JsonView)> {
    Seq::new(e.len(), |i: int| (e[i].0@, json_view(e[i].1)))
}

/// The view of an array's items.
pub open spec fn items_view(items: Seq<JsonValue>) -> Seq<JsonView> {
    Seq::new(items.len(), |i: int| json_view(items[i]))
}

pub proof fn lemma_object_view(e: Vec<(String, JsonValue)>)
    ensures
        json_view(JsonValue::Object(e)) == JsonView::Object(entries_view(e@)),
{
    match json_view(JsonValue::Object(e)) {
        JsonView::Object(s) => {
            assert(s =~= entries_view(e@));
        },
        _ => {
            assert(false);
        },
    }
}

pub proof fn lemma_array_view(items: Vec<JsonValue>)
    ensures
        json_view(JsonValue::Array(items)) == JsonView::Array(items_view(items@)),
{
    match json_view(JsonValue::Array(items)) {
        JsonView::Array(s) => {
            assert(s =~= items_view(items@));
        },
        _ => {
            assert(false);
        },
    }
}

/// The view keeps the kind of value.
pub proof fn lemma_view_kind(v: JsonValue)
    ensures
        (v is Null) == (json_view(v) is Null),
        (v is Bool) == (json_view(v) is Bool),
        (v is Number) == (json_view(v) is Number),
        (v is Str) == (json_view(v) is Str),
        (v is Array) == (json_view(v) is Array),
        (v is Object) == (json_view(v) is Object),
{
}

/// The index of the first member named `key`, searching from index `i`.
pub open spec fn find_key_from(e: Seq<(Seq<char>, JsonView)>, key: Seq<char>, i: int) -> Option<
    int,
>
    decreases e.len() - i,
{
    if i >= e.len() {
        None
    } else if e[i].0 == key {
        Some(i)
    } else {
        find_key_from(e, key, i + 1)
    }
}

/// The index of the first member named `key`.
pub open spec fn find_key(e: Seq<(Seq<char>, JsonView)>, key: Seq<char>) -> Option<int> {
    find_key_from(e, key, 0)
}

/// The value of member `key`, as `Map::get` gives it.
pub open spec fn get_key(e: Seq<(Seq<char>, JsonView)>, key: Seq<char>) -> Option<JsonView> {
    match find_key(e, key) {
        Some(i) => Some(e[i].1),
        None => None,
    }
}

/// The members after setting `key` to `v`, as `Map::insert` does: an
/// existing member keeps its place and takes the new value, a new member
/// comes last.
pub open spec fn set_key(e: Seq<(Seq<char>, JsonView)>, key: Seq<char>, v: JsonView) -> Seq<
    (Seq<char>, JsonView),
> {
    match find_key(e, key) {
        Some(i) => e.update(i, (key, v)),
        None => e.push((key, v)),
    }
}

pub proof fn lemma_find_key_from(e: Seq<(Seq<char>, JsonView)>, key: Seq<char>, i: int)
    requires
        0 <= i,
    ensures
        find_key_from(e, key, i) matches Some(k) ==> i <= k < e.len() && e[k].0 == key && forall|
            j: int,
        |
            i <= j < k ==> e[j].0 != key,
        find_key_from(e, key, i) is None ==> forall|j: int| i <= j < e.len() ==> e[j].0 != key,
    decreases e.len() - i,
{
    if i < e.len() {
        lemma_find_key_from(e, key, i + 1);
    }
}

proof fn lemma_find_key_is(e: Seq<(Seq<char>, JsonView)>, key: Seq<char>, m: int, i: int)
    requires
        0 <= i <= m < e.len(),
        e[m].0 == key,
        forall|j: int| i <= j < m ==> e[j].0 != key,
    ensures
        find_key_from(e, key, i) == Some(m),
    decreases m - i,
{
    if i < m {
        lemma_find_key_is(e, key, m, i + 1);
    }
}

proof fn lemma_find_key_none(e: Seq<(Seq<char>, JsonView)>, key: Seq<char>, i: int)
    requires
        0 <= i,
        forall|j: int| i <= j < e.len() ==> e[j].0 != key,
    ensures
        find_key_from(e, key, i) is None,
    decreases e.len() - i,
{
    if i < e.len() {
        lemma_find_key_none(e, key, i + 1);
    }
}

/// Reading a member that was just set gives its new value; other members
/// read as before.
pub proof fn lemma_get_set(e: Seq<(Seq<char>, JsonView)>, key: Seq<char>, v: JsonView, k: Seq<char>)
    ensures
        get_key(set_key(e, key, v), k) == (if k == key {
            Some(v)
        } else {
            get_key(e, k)
        }),
{
    lemma_find_key_from(e, key, 0);
    lemma_find_key_from(e, k, 0);
    let s = set_key(e, key, v);
    let pos: int = match find_key(e, key) {
        Some(i) => i,
        None => e.len() as int,
    };
    assert(s.len() >= e.len());
    assert(0 <= pos < s.len() && s[pos] == (key, v));
    assert(forall|j: int| 0 <= j < e.len() && j != pos ==> s[j] == e[j]);
    if k == key {
        lemma_find_key_is(s, k, pos, 0);
    } else {
        assert(s.len() == e.len() || pos == e.len());
        match find_key(e, k) {
            Some(m) => {
                lemma_find_key_is(s, k, m, 0);
            },
            None => {
                lemma_find_key_none(s, k, 0);
            },
        }
    }
}

/// A string value.
pub fn json_str(s: &str) -> (v: JsonValue)
    ensures
        json_view(v) == JsonView::Str(s@),
{
    JsonValue::Str(String::from_str(s))
}

/// Finds the first member named `key`.
pub fn find_member(entries: &Vec<(String, JsonValue)>, key: &str) -> (r: Option<usize>)
    ensures
        match r {
            Some(i) => find_key(entries_view(entries@), key@) == Some(i as int),
            None => find_key(entries_view(entries@), key@) is None,
        },
{
    let wanted = String::from_str(key);
    let ghost ev = entries_view(entries@);
    let mut i: usize = 0;
    while i < entries.len()
        invariant
            i <= entries@.len(),
            ev == entries_view(entries@),
            wanted@ == key@,
            find_key(ev, key@) == find_key_from(ev, key@, i as int),
        decreases entries@.len() - i,
    {
        if entries[i].0 == wanted {
            assert(ev[i as int].0 == key@);
            return Some(i);
        }
        assert(ev[i as int].0 != key@);
        i = i + 1;
    }
    None
}

/// Sets member `key` to `value`, as `Map::insert` does.
pub fn set_member(entries: &mut Vec<(String, JsonValue)>, key: &str, value: JsonValue)
    ensures
        entries_view(final(entries)@) == set_key(entries_view(old(entries)@), key@, json_view(value)),
{
    let ghost ev = entries_view(entries@);
    let ghost vv = json_view(value);
    match find_member(entries, key) {
        Some(i) => {
            proof {
                lemma_find_key_from(ev, key@, 0);
            }
            let ghost before = entries@;
            entries.remove(i);
            entries.insert(i, (String::from_str(key), value));
            assert(entries@ =~= before.update(i as int, (entries@[i as int].0, entries@[i as int].1)));
            assert(entries_view(entries@) =~= ev.update(i as int, (key@, vv)));
        },
        None => {
            let ghost before = entries@;
            entries.push((String::from_str(key), value));
            assert(entries_view(entries@) =~= ev.push((key@, vv)));
        },
    }
}

#[verifier::external_type_specification]
#[verifier::external_body]
pub struct ExSerdeJsonValue(serde_json::Value);

/// What `serde_json::from_str::<serde_json::Value>` makes of `text`, in the
/// model: `None` where it refuses the text. Numbers keep the text that
/// `Number`'s `Display` gives; object members come in the map's order.
pub uninterp spec fn json_parse(text: Seq<char>) -> Option<JsonView>;

/// What `serde_json::to_string_pretty` writes for the document `v`, after
/// each number's text has been read with `serde_json::Number`'s `FromStr`:
/// two outside calls stand behind this one name. `None` where `FromStr`
/// refuses a number's text; the printing itself cannot fail.
pub uninterp spec fn json_pretty(v: JsonView) -> Option<Seq<char>>;

/// Moves a parsed `serde_json::Value` into the model, variant by variant.
/// It serves only the body of `parse_json`, which states its outcome.
#[verifier::external_body]
fn json_model(v: serde_json::Value) -> JsonValue {
    match v {
        serde_json::Value::Null => JsonValue::Null,
        serde_json::Value::Bool(b) => JsonValue::Bool(b),
        serde_json::Value::Number(n) => JsonValue::Number(n.to_string()),
        serde_json::Value::String(t) => JsonValue::Str(t),
        serde_json::Value::Array(a) => JsonValue::Array(a.into_iter().map(json_model).collect()),
        serde_json::Value::Object(o) => JsonValue::Object(o.into_iter().map(|(k, x)| (k, json_model(x))).collect()),
    }
}

/// Moves a model document into a `serde_json::Value`, variant by variant;
/// `None` where `serde_json::Number` refuses a number's text. It serves
/// only the body of `render_json_pretty`, which states its outcome.
#[verifier::external_body]
fn serde_value(v: &JsonValue) -> Option<serde_json::Value> {
    Some(match v {
        JsonValue::Null => serde_json::Value::Null,
        JsonValue::Bool(b) => serde_json::Value::Bool(*b),
        JsonValue::Number(n) => serde_json::Value::Number(n.parse().ok()?),
        JsonValue::Str(t) => serde_json::Value::String(t.clone()),
        JsonValue::Array(a) => serde_json::Value::Array(a.iter().map(serde_value).collect::<Option<_>>()?),
        JsonValue::Object(o) => serde_json::Value::Object(o.iter().map(|(k, x)| Some((k.clone(), serde_value(x)?))).collect::<Option<_>>()?),
    })
}

/// Parses `text` with `serde_json::from_str` into a `serde_json::Value` and
/// moves it into the model. Trusted: the outcome is the one that
/// `json_parse` names for the text; nothing more is stated of serde_json's
/// grammar.
#[verifier::external_body]
pub fn parse_json(text: &str) -> (r: Option<JsonValue>)
    ensures
        json_parse(text@) == (match r {
            Some(v) => Some(json_view(v)),
            None => None::<JsonView>,
        }),
{
    serde_json::from_str::<serde_json::Value>(text).ok().map(json_model)
}

/// Writes `v` with `serde_json::to_string_pretty`, after moving it into a
/// `serde_json::Value`. Trusted: the outcome is the one that `json_pretty`
/// names for the document; nothing more is stated of the layout.
#[verifier::external_body]
pub fn render_json_pretty(v: &JsonValue) -> (s: Option<String>)
    ensures
        json_pretty(json_view(*v)) == (match s {
            Some(t) => Some(t@),
            None => None::<Seq<char>>,
        }),
{
    serde_value(v).and_then(|x| serde_json::to_string_pretty(&x).ok())
}

} // verus!
