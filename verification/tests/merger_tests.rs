//! Tests of the deep merge.

use token_provider::document::Document;
use token_provider::merger::deep_merge_json;

fn s(text: &str) -> String {
    text.to_string()
}

fn num(text: &str) -> Document {
    Document::Num(s(text))
}

fn st(text: &str) -> Document {
    Document::Str(s(text))
}

fn obj(entries: Vec<(&str, Document)>) -> Document {
    Document::Obj(entries.into_iter().map(|(k, v)| (s(k), v)).collect())
}

#[test]
fn test_deep_merge_nested_objects() {
    let mut existing = obj(vec![
        ("a", obj(vec![("b", num("1")), ("c", num("2"))])),
        ("d", num("3")),
    ]);

    let new = obj(vec![
        ("a", obj(vec![("b", num("10")), ("e", num("5"))])),
        ("f", num("6")),
    ]);

    deep_merge_json(&mut existing, new).unwrap();

    let expected = obj(vec![
        ("a", obj(vec![("b", num("10")), ("c", num("2")), ("e", num("5"))])),
        ("d", num("3")),
        ("f", num("6")),
    ]);

    assert!(existing.deep_eq(&expected));
}

#[test]
fn test_deep_merge_complex() {
    let mut base = obj(vec![
        ("config_version", num("1")),
        (
            "settings",
            obj(vec![("retries", num("3")), ("timeout_ms", num("1000"))]),
        ),
        ("features", obj(vec![("feature_a", Document::Bool(true))])),
    ]);

    let update = obj(vec![
        ("config_version", num("2")),
        (
            "settings",
            obj(vec![("timeout_ms", num("5000")), ("new_setting", st("value"))]),
        ),
        ("features", obj(vec![("feature_b", Document::Bool(true))])),
        ("new_section", obj(vec![("key", st("value"))])),
    ]);

    deep_merge_json(&mut base, update).unwrap();

    let expected = obj(vec![
        ("config_version", num("2")),
        (
            "settings",
            obj(vec![
                ("retries", num("3")),
                ("timeout_ms", num("5000")),
                ("new_setting", st("value")),
            ]),
        ),
        (
            "features",
            obj(vec![
                ("feature_a", Document::Bool(true)),
                ("feature_b", Document::Bool(true)),
            ]),
        ),
        ("new_section", obj(vec![("key", st("value"))])),
    ]);

    assert!(base.deep_eq(&expected));
}

#[test]
fn test_merge_replace_primitives() {
    let mut existing = obj(vec![
        ("string", st("old")),
        ("number", num("42")),
        ("boolean", Document::Bool(true)),
    ]);

    let new = obj(vec![
        ("string", st("new")),
        ("number", num("100")),
        ("boolean", Document::Bool(false)),
        ("array", Document::Arr(vec![num("1"), num("2"), num("3")])),
    ]);

    deep_merge_json(&mut existing, new).unwrap();

    let expected = obj(vec![
        ("string", st("new")),
        ("number", num("100")),
        ("boolean", Document::Bool(false)),
        ("array", Document::Arr(vec![num("1"), num("2"), num("3")])),
    ]);

    assert!(existing.deep_eq(&expected));
}

#[test]
fn test_merge_precedence_example() {
    let mut base = obj(vec![("a", obj(vec![("b", num("1")), ("c", num("2"))]))]);
    let overlay = obj(vec![("a", obj(vec![("b", num("10")), ("e", num("5"))]))]);

    deep_merge_json(&mut base, overlay).unwrap();

    let expected = obj(vec![(
        "a",
        obj(vec![("b", num("10")), ("c", num("2")), ("e", num("5"))]),
    )]);
    assert!(base.deep_eq(&expected));
}

#[test]
fn test_merge_type_mismatch_replacement() {
    let mut base = obj(vec![("x", obj(vec![("y", num("1"))]))]);
    let overlay = obj(vec![("x", Document::Arr(vec![num("1"), num("2"), num("3")]))]);

    deep_merge_json(&mut base, overlay).unwrap();

    let expected = obj(vec![("x", Document::Arr(vec![num("1"), num("2"), num("3")]))]);
    assert!(base.deep_eq(&expected));
}

#[test]
fn test_merge_idempotence_concrete() {
    let a = obj(vec![
        ("shared", obj(vec![("x", num("1")), ("y", num("2"))])),
        ("only_a", st("keep")),
    ]);
    let b = obj(vec![
        ("shared", obj(vec![("y", num("20")), ("z", num("30"))])),
        ("only_b", Document::Bool(true)),
    ]);

    let mut once = a.clone();
    deep_merge_json(&mut once, b.clone()).unwrap();

    let mut twice = once.clone();
    deep_merge_json(&mut twice, b).unwrap();

    assert!(twice.deep_eq(&once));
}

#[test]
fn test_merge_empty_overlay_is_noop() {
    let mut base = obj(vec![("a", num("1")), ("b", st("two"))]);
    let snapshot = base.clone();

    deep_merge_json(&mut base, obj(vec![])).unwrap();

    assert!(base.deep_eq(&snapshot));
}

#[test]
fn test_merge_into_empty_base_copies_overlay() {
    let mut base = obj(vec![]);
    let overlay = obj(vec![("a", obj(vec![("b", num("1"))])), ("c", Document::Null)]);

    deep_merge_json(&mut base, overlay.clone()).unwrap();

    assert!(base.deep_eq(&overlay));
}

#[test]
fn test_merge_not_commutative() {
    let a = obj(vec![("k", num("1"))]);
    let b = obj(vec![("k", num("2"))]);

    let mut ab = a.clone();
    deep_merge_json(&mut ab, b.clone()).unwrap();
    let mut ba = b;
    deep_merge_json(&mut ba, a).unwrap();

    assert!(ab.deep_eq(&obj(vec![("k", num("2"))])));
    assert!(ba.deep_eq(&obj(vec![("k", num("1"))])));
    assert!(!ab.deep_eq(&ba));
}
