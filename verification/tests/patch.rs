use fx_core::services::patch::{apply_patch, diff, json_eq, patch_id, patch_status, Json, PatchOp};

fn s(v: &str) -> Json {
    Json::Str(v.to_string())
}

fn n(v: &str) -> Json {
    Json::Number(v.to_string())
}

/// An object with its entries given in increasing key order.
fn obj(entries: Vec<(&str, Json)>) -> Json {
    Json::Object(entries.into_iter().map(|(k, v)| (k.to_string(), v)).collect())
}

fn arr(items: Vec<Json>) -> Json {
    Json::Array(items)
}

fn op(name: &str, path: &str, value: Option<Json>) -> PatchOp {
    PatchOp { op: name.to_string(), path: path.to_string(), value }
}

fn str_of(j: Option<&Json>) -> Option<&str> {
    match j {
        Some(Json::Str(x)) => Some(x.as_str()),
        _ => None,
    }
}

#[test]
fn test_apply_replace() {
    let mut doc = obj(vec![("code", s("CS100")), ("title", s("Old"))]);
    let ops = vec![op("replace", "/title", Some(s("New")))];
    apply_patch(&mut doc, &ops).unwrap();
    assert_eq!(str_of(doc.member("title")), Some("New"));
    assert_eq!(str_of(doc.member("code")), Some("CS100"));
}

#[test]
fn test_apply_add_to_array() {
    let mut doc = obj(vec![("tags", arr(vec![s("a"), s("b")]))]);
    let ops = vec![op("add", "/tags/-", Some(s("c")))];
    apply_patch(&mut doc, &ops).unwrap();
    assert!(json_eq(doc.member("tags").unwrap(), &arr(vec![s("a"), s("b"), s("c")])));
}

#[test]
fn test_apply_remove() {
    let mut doc = obj(vec![("extra", s("Y")), ("title", s("X"))]);
    let ops = vec![op("remove", "/extra", None)];
    apply_patch(&mut doc, &ops).unwrap();
    assert!(doc.member("extra").is_none());
}

#[test]
fn test_apply_nested() {
    let mut doc = obj(vec![("schedule", arr(vec![obj(vec![("session", n("1")), ("topic", s("Old"))])]))]);
    let ops = vec![op("replace", "/schedule/0/topic", Some(s("New")))];
    apply_patch(&mut doc, &ops).unwrap();
    let first = doc.member("schedule").unwrap().item(0).unwrap();
    assert_eq!(str_of(first.member("topic")), Some("New"));
}

#[test]
fn test_diff_simple() {
    let old = obj(vec![("code", s("CS1")), ("title", s("A"))]);
    let new = obj(vec![("code", s("CS1")), ("title", s("B"))]);
    let ops = diff(&old, &new);
    assert_eq!(ops.len(), 1);
    assert_eq!(ops[0].path, "/title");
    assert_eq!(ops[0].op, "replace");
}

#[test]
fn test_diff_add_remove() {
    let old = obj(vec![("a", n("1")), ("b", n("2"))]);
    let new = obj(vec![("a", n("1")), ("c", n("3"))]);
    let ops = diff(&old, &new);
    assert!(ops.iter().any(|o| o.op == "remove" && o.path == "/b"));
    assert!(ops.iter().any(|o| o.op == "add" && o.path == "/c"));
}

#[test]
fn test_roundtrip() {
    let old = obj(vec![("nested", obj(vec![("a", n("1"))])), ("tags", arr(vec![s("x")])), ("title", s("A"))]);
    let new = obj(vec![("nested", obj(vec![("a", n("2"))])), ("tags", arr(vec![s("x"), s("y")])), ("title", s("B"))]);
    let ops = diff(&old, &new);
    let mut doc = old;
    apply_patch(&mut doc, &ops).unwrap();
    assert!(json_eq(&doc, &new));
}

#[test]
fn diff_of_equal_documents_is_empty() {
    let a = obj(vec![("k", arr(vec![Json::Null, Json::Bool(true)]))]);
    let b = obj(vec![("k", arr(vec![Json::Null, Json::Bool(true)]))]);
    assert!(diff(&a, &b).is_empty());
}

#[test]
fn diff_replaces_root_of_different_kind() {
    let ops = diff(&s("x"), &arr(vec![]));
    assert_eq!(ops.len(), 1);
    assert_eq!(ops[0].op, "replace");
    assert_eq!(ops[0].path, "");
    let mut doc = s("x");
    apply_patch(&mut doc, &ops).unwrap();
    assert!(json_eq(&doc, &arr(vec![])));
}

#[test]
fn diff_orders_removes_then_changes() {
    let old = obj(vec![("a", n("1")), ("b", obj(vec![("x", n("1"))])), ("z", n("9"))]);
    let new = obj(vec![("b", obj(vec![("x", n("2"))])), ("c", n("3"))]);
    let ops = diff(&old, &new);
    let summary: Vec<(String, String)> = ops.iter().map(|o| (o.op.clone(), o.path.clone())).collect();
    assert_eq!(
        summary,
        vec![
            ("remove".to_string(), "/a".to_string()),
            ("remove".to_string(), "/z".to_string()),
            ("replace".to_string(), "/b/x".to_string()),
            ("add".to_string(), "/c".to_string()),
        ]
    );
    let mut doc = old;
    apply_patch(&mut doc, &ops).unwrap();
    assert!(json_eq(&doc, &new));
}

#[test]
fn apply_errors_leave_earlier_ops_applied() {
    let mut doc = obj(vec![("a", n("1"))]);
    let ops = vec![
        op("add", "/b", Some(n("2"))),
        op("move", "/a", None),
        op("add", "/c", Some(n("3"))),
    ];
    let err = apply_patch(&mut doc, &ops).unwrap_err();
    assert_eq!(err, "unsupported op: move");
    assert!(json_eq(&doc, &obj(vec![("a", n("1")), ("b", n("2"))])));
}

#[test]
fn apply_error_messages() {
    let base = || obj(vec![("list", arr(vec![n("0")])), ("name", s("x"))]);
    let cases: Vec<(PatchOp, &str)> = vec![
        (op("replace", "/name", None), "replace requires value"),
        (op("add", "/name", None), "add requires value"),
        (op("replace", "/list/5", Some(n("1"))), "array index out of bounds: 5"),
        (op("replace", "/list/x", Some(n("1"))), "invalid array index: x"),
        (op("remove", "/list/+07", None), "array index out of bounds: 7"),
        (op("replace", "/missing/key", Some(n("1"))), "path not found: missing"),
        (op("replace", "/list/3/key", Some(n("1"))), "index out of bounds: 3"),
        (op("replace", "/list/q/key", Some(n("1"))), "invalid index: q"),
        (op("replace", "/name/key", Some(n("1"))), "cannot set on non-container at /name/key"),
        (op("add", "/name/key", Some(n("1"))), "cannot add to non-container at /name/key"),
        (op("remove", "/name/key", None), "cannot remove from non-container at /name/key"),
        (op("replace", "/name/x/y", Some(n("1"))), "cannot navigate into non-container at x"),
    ];
    for (o, msg) in cases {
        let mut doc = base();
        let err = apply_patch(&mut doc, &[o]).unwrap_err();
        assert_eq!(err, msg);
        assert!(json_eq(&doc, &base()));
    }
}

#[test]
fn apply_array_edits_and_escapes() {
    let mut doc = obj(vec![("a/b", n("1")), ("list", arr(vec![n("0"), n("1")]))]);
    let ops = vec![
        op("add", "/list/1", Some(n("9"))),
        op("add", "/list/99", Some(n("7"))),
        op("remove", "/list/0", None),
        op("replace", "/a~1b", Some(n("2"))),
        op("add", "/", Some(n("5"))),
    ];
    apply_patch(&mut doc, &ops).unwrap();
    let expected = obj(vec![("", n("5")), ("a/b", n("2")), ("list", arr(vec![n("9"), n("1"), n("7")]))]);
    assert!(json_eq(&doc, &expected));
}

#[test]
fn replace_at_root_replaces_document() {
    let mut doc = obj(vec![("a", n("1"))]);
    apply_patch(&mut doc, &[op("replace", "/", Some(s("all")))]).unwrap();
    assert!(json_eq(&doc, &s("all")));
}

#[test]
fn owner_patches_apply_at_once() {
    assert_eq!(patch_status("did:a", "did:a"), "applied");
    assert_eq!(patch_status("did:b", "did:a"), "pending");
    assert_eq!(patch_id("3abc"), "p-3abc");
}
