use sirius::codec::{extract_named, normalize};
use sirius::error::SyncError;
use sirius::value::JsonValue;

fn obj(entries: Vec<(&str, JsonValue)>) -> JsonValue {
    JsonValue::Obj(entries.into_iter().map(|(k, v)| (k.to_string(), v)).collect())
}

fn arr(items: Vec<JsonValue>) -> JsonValue {
    JsonValue::Arr(items)
}

fn s(x: &str) -> JsonValue {
    JsonValue::Str(x.to_string())
}

fn ids(set: &sirius::membership::MembershipSet) -> Vec<String> {
    set.ids.clone()
}

#[test]
fn normalize_object_yields_key_set() {
    let v = obj(vec![("a", obj(vec![])), ("b", JsonValue::Null)]);
    let set = normalize(&v, "project").unwrap();
    assert_eq!(ids(&set), vec!["a".to_string(), "b".to_string()]);
}

#[test]
fn normalize_array_yields_same_set_as_object() {
    let o = obj(vec![("a", JsonValue::Null), ("b", JsonValue::Null)]);
    let a = arr(vec![s("a"), s("b")]);
    let from_object = normalize(&o, "project").unwrap();
    let from_array = normalize(&a, "project").unwrap();
    assert_eq!(ids(&from_object), ids(&from_array));
}

#[test]
fn normalize_stringifies_numeric_ids() {
    let v = arr(vec![JsonValue::Num(122), JsonValue::Num(334), JsonValue::Num(456)]);
    let set = normalize(&v, "project").unwrap();
    assert_eq!(ids(&set), vec!["122".to_string(), "334".to_string(), "456".to_string()]);
}

#[test]
fn normalize_null_is_empty_not_an_error() {
    let set = normalize(&JsonValue::Null, "project").unwrap();
    assert_eq!(set.len(), 0);
    assert!(!set.contains(&"anything".to_string()));
}

#[test]
fn normalize_deduplicates_silently() {
    let v = arr(vec![s("p1"), s("p2"), s("p1"), JsonValue::Num(7), s("7")]);
    let set = normalize(&v, "project").unwrap();
    assert_eq!(ids(&set), vec!["p1".to_string(), "p2".to_string(), "7".to_string()]);
}

#[test]
fn normalize_rejects_other_shapes_naming_the_key() {
    let v = s("not-an-object-or-array");
    match normalize(&v, "project") {
        Err(SyncError::Shape(k)) => assert_eq!(k, "project"),
        other => panic!("expected a shape error naming project, got {:?}", other.map(|m| m.ids)),
    }
}

#[test]
fn normalize_rejects_non_scalar_array_elements() {
    let v = arr(vec![s("ok"), arr(vec![])]);
    match normalize(&v, "scope") {
        Err(SyncError::Shape(k)) => assert_eq!(k, "scope"),
        _ => panic!("expected a shape error naming scope"),
    }
}

#[test]
fn normalize_object_with_equal_keys_keeps_one() {
    let v = obj(vec![("a", JsonValue::Null), ("a", JsonValue::Bool(true))]);
    let set = normalize(&v, "project").unwrap();
    assert_eq!(ids(&set), vec!["a".to_string()]);
}

#[test]
fn extract_named_builds_id_to_name_map() {
    let doc = obj(vec![(
        "group",
        obj(vec![
            ("g1", obj(vec![("name", s("awesome")), ("project", arr(vec![JsonValue::Num(122)]))])),
            ("g2", obj(vec![("name", s("default"))])),
        ]),
    )]);
    let m = extract_named(&doc, "group").unwrap();
    assert_eq!(
        m.entries,
        vec![
            ("g1".to_string(), "awesome".to_string()),
            ("g2".to_string(), "default".to_string())
        ]
    );
}

#[test]
fn extract_named_missing_key_is_empty_map() {
    let doc = obj(vec![("project", obj(vec![]))]);
    let m = extract_named(&doc, "group").unwrap();
    assert_eq!(m.entries.len(), 0);
}

#[test]
fn extract_named_blames_entry_without_name() {
    let doc = obj(vec![("group", obj(vec![("g1", obj(vec![("project", arr(vec![]))]))]))]);
    match extract_named(&doc, "group") {
        Err(SyncError::Shape(k)) => assert_eq!(k, "g1"),
        _ => panic!("expected a shape error naming the entry"),
    }
}

#[test]
fn extract_named_blames_non_string_name() {
    let doc = obj(vec![("group", obj(vec![("g7", obj(vec![("name", JsonValue::Num(3))]))]))]);
    match extract_named(&doc, "group") {
        Err(SyncError::Shape(k)) => assert_eq!(k, "g7"),
        _ => panic!("expected a shape error naming the entry"),
    }
}
