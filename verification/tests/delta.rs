use sirius::delta::{merge_project, resolve_default_group};
use sirius::membership::{MembershipMap, MembershipSet};

fn set_of(items: Vec<&str>) -> MembershipSet {
    let mut s = MembershipSet::new();
    for item in items {
        s.insert(item.to_string());
    }
    s
}

fn map_of(entries: Vec<(&str, &str)>) -> MembershipMap {
    let mut m = MembershipMap::new();
    for (k, v) in entries {
        m.insert(k.to_string(), v.to_string());
    }
    m
}

#[test]
fn merge_project_appends_new_ids_in_order() {
    let existing = set_of(vec!["p1", "p2"]);
    let additions = vec!["p3".to_string(), "p1".to_string(), "p4".to_string()];
    let merged = merge_project(existing, &additions);
    assert_eq!(
        merged.ids,
        vec!["p1".to_string(), "p2".to_string(), "p3".to_string(), "p4".to_string()]
    );
}

#[test]
fn merge_project_is_idempotent() {
    let additions = vec!["a".to_string(), "b".to_string(), "a".to_string()];
    let once = merge_project(set_of(vec!["x", "a"]), &additions);
    let twice = merge_project(merge_project(set_of(vec!["x", "a"]), &additions), &additions);
    assert_eq!(once.ids, twice.ids);
}

#[test]
fn merge_project_on_empty_addition_list_is_identity() {
    let merged = merge_project(set_of(vec!["p1"]), &Vec::new());
    assert_eq!(merged.ids, vec!["p1".to_string()]);
}

#[test]
fn membership_map_insert_replaces_in_place() {
    let mut m = map_of(vec![("g1", "ops"), ("g2", "dev")]);
    m.insert("g1".to_string(), "default".to_string());
    assert_eq!(
        m.entries,
        vec![("g1".to_string(), "default".to_string()), ("g2".to_string(), "dev".to_string())]
    );
}

#[test]
fn resolve_default_group_finds_the_default_entry() {
    let groups = map_of(vec![("g0", "ops"), ("g1", "default"), ("g2", "dev")]);
    assert_eq!(resolve_default_group(&groups), "g1");
}

#[test]
fn resolve_default_group_without_default_is_empty_not_an_error() {
    let groups = map_of(vec![("g0", "ops"), ("g2", "dev")]);
    assert_eq!(resolve_default_group(&groups), "");
}

#[test]
fn resolve_default_group_last_match_wins() {
    let groups = map_of(vec![("g1", "default"), ("g2", "default")]);
    assert_eq!(resolve_default_group(&groups), "g2");
}
