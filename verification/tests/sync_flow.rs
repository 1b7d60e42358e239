use sirius::controller::list::{list_controller, list_project_controller};
use sirius::controller::sync::{
    extract_old_project, extract_sync_id, sync_groups_requests, sync_requests, SyncMode,
};
use sirius::error::SyncError;
use sirius::identity::Identity;
use sirius::namespace::{Mode, Namespace};
use sirius::outcome::{outcome_messages, SinkMessage};
use sirius::value::JsonValue;

fn obj(entries: Vec<(&str, JsonValue)>) -> JsonValue {
    JsonValue::Obj(entries.into_iter().map(|(k, v)| (k.to_string(), v)).collect())
}

fn arr(items: Vec<JsonValue>) -> JsonValue {
    JsonValue::Arr(items)
}

fn s(x: &str) -> JsonValue {
    JsonValue::Str(x.to_string())
}

fn json_eq(a: &JsonValue, b: &JsonValue) -> bool {
    match (a, b) {
        (JsonValue::Null, JsonValue::Null) => true,
        (JsonValue::Bool(x), JsonValue::Bool(y)) => x == y,
        (JsonValue::Num(x), JsonValue::Num(y)) => x == y,
        (JsonValue::Str(x), JsonValue::Str(y)) => x == y,
        (JsonValue::Arr(x), JsonValue::Arr(y)) => {
            x.len() == y.len() && x.iter().zip(y.iter()).all(|(l, r)| json_eq(l, r))
        }
        (JsonValue::Obj(x), JsonValue::Obj(y)) => {
            x.len() == y.len()
                && x.iter().zip(y.iter()).all(|(l, r)| l.0 == r.0 && json_eq(&l.1, &r.1))
        }
        _ => false,
    }
}

/// An organisation whose metadata holds an empty project map and one
/// group map entry naming the default group.
fn organisation() -> Identity {
    Identity {
        id: "org-1".to_string(),
        traits: Some(obj(vec![("email", s("lol.lol@lol.io")), ("name", s("lol"))])),
        metadata_admin: None,
        metadata_public: Some(obj(vec![
            ("project", obj(vec![("p1", obj(vec![])), ("p2", obj(vec![]))])),
            ("group", obj(vec![("g1", s("default"))])),
        ])),
    }
}

#[test]
fn organisation_cascade_targets_the_default_group_with_mode_meta() {
    let users = vec![("u1".to_string(), arr(vec![s("contributor")]))];
    let requests = sync_groups_requests(&organisation(), Namespace::Public, &users).unwrap();
    assert_eq!(requests.len(), 1);
    assert_eq!(requests[0].target_id, "u1");
    assert_eq!(requests[0].permission_type, "user");
    assert_eq!(requests[0].resource_id, "g1");
    assert_eq!(requests[0].mode, Mode::Meta);
    assert!(json_eq(&requests[0].value, &arr(vec![s("contributor")])));
    // on completion, the notification sink receives the "ok" marker
    let messages = outcome_messages(&Ok(()), &"corr-7".to_string());
    assert_eq!(messages.len(), 1);
    match &messages[0] {
        SinkMessage::Notif(p) => assert_eq!(p, "ok"),
        _ => panic!("expected the ok marker"),
    }
}

#[test]
fn organisation_without_default_group_degrades_to_empty_resource() {
    let mut org = organisation();
    org.metadata_public = Some(obj(vec![("group", obj(vec![("g1", s("ops"))]))]));
    let users = vec![("u1".to_string(), arr(vec![s("contributor")]))];
    let requests = sync_groups_requests(&org, Namespace::Public, &users).unwrap();
    assert_eq!(requests.len(), 1);
    assert_eq!(requests[0].resource_id, "");
}

#[test]
fn malformed_project_metadata_stops_the_cascade_before_any_request() {
    let mut group = organisation();
    group.metadata_public = Some(obj(vec![("project", s("not-an-object-or-array"))]));
    let mode = SyncMode::Project(vec!["p9".to_string()]);
    match sync_requests(&group, Namespace::Public, mode) {
        Err(SyncError::Shape(k)) => assert_eq!(k, "project"),
        _ => panic!("expected a shape error naming project, and no requests"),
    }
}

#[test]
fn project_cascade_merges_new_projects_into_every_member_payload() {
    let group = Identity {
        id: "grp-1".to_string(),
        traits: Some(obj(vec![("name", s("awesome"))])),
        metadata_admin: Some(obj(vec![
            ("project", arr(vec![JsonValue::Num(122), JsonValue::Num(334)])),
            ("user", obj(vec![("u1", arr(vec![s("admin")])), ("u2", JsonValue::Null)])),
        ])),
        metadata_public: None,
    };
    let mode = SyncMode::Project(vec!["334".to_string(), "456".to_string()]);
    let requests = sync_requests(&group, Namespace::Admin, mode).unwrap();
    assert_eq!(requests.len(), 2);
    assert_eq!(requests[0].target_id, "u1");
    assert_eq!(requests[0].permission_type, "group");
    assert_eq!(requests[0].resource_id, "grp-1");
    assert_eq!(requests[0].mode, Mode::Admin);
    let expected_payload = obj(vec![
        ("name", s("awesome")),
        ("project", arr(vec![s("122"), s("334"), s("456")])),
        ("role", arr(vec![s("admin")])),
    ]);
    assert!(json_eq(&requests[0].value, &expected_payload));
    // a member whose role entry is not an array gets the empty role array
    assert_eq!(requests[1].target_id, "u2");
    let expected_empty_role = obj(vec![
        ("name", s("awesome")),
        ("project", arr(vec![s("122"), s("334"), s("456")])),
        ("role", arr(vec![])),
    ]);
    assert!(json_eq(&requests[1].value, &expected_empty_role));
}

#[test]
fn user_cascade_keeps_the_existing_project_list() {
    let group = Identity {
        id: "grp-1".to_string(),
        traits: Some(obj(vec![("name", s("awesome"))])),
        metadata_admin: Some(obj(vec![("project", arr(vec![JsonValue::Num(122)]))])),
        metadata_public: None,
    };
    let mode = SyncMode::User(vec![("u9".to_string(), arr(vec![s("viewer")]))]);
    let requests = sync_requests(&group, Namespace::Admin, mode).unwrap();
    assert_eq!(requests.len(), 1);
    assert_eq!(requests[0].target_id, "u9");
    let expected = obj(vec![
        ("name", s("awesome")),
        ("project", arr(vec![s("122")])),
        ("role", arr(vec![s("viewer")])),
    ]);
    assert!(json_eq(&requests[0].value, &expected));
}

#[test]
fn extract_old_project_reads_both_encodings() {
    let from_array = extract_old_project(&obj(vec![(
        "project",
        arr(vec![JsonValue::Num(122), JsonValue::Num(334), JsonValue::Num(456)]),
    )]))
    .unwrap();
    assert_eq!(from_array.ids, vec!["122".to_string(), "334".to_string(), "456".to_string()]);
    let from_object = extract_old_project(&obj(vec![(
        "project",
        obj(vec![("122", obj(vec![])), ("334", obj(vec![])), ("456", obj(vec![]))]),
    )]))
    .unwrap();
    assert_eq!(from_object.ids, from_array.ids);
    let missing = extract_old_project(&obj(vec![])).unwrap();
    assert_eq!(missing.ids.len(), 0);
}

#[test]
fn extract_sync_id_pairs_each_member_with_its_roles() {
    let doc = obj(vec![(
        "user",
        obj(vec![("u1", arr(vec![s("admin")])), ("u2", s("not-an-array"))]),
    )]);
    let entries = extract_sync_id(&doc, "user");
    assert_eq!(entries.len(), 2);
    assert_eq!(entries[0].0, "u1");
    assert!(json_eq(&entries[0].1, &arr(vec![s("admin")])));
    assert_eq!(entries[1].0, "u2");
    assert!(json_eq(&entries[1].1, &arr(vec![])));
    assert_eq!(extract_sync_id(&doc, "scope").len(), 0);
}

#[test]
fn list_project_controller_walks_groups_and_organisations() {
    let ident = Identity {
        id: "u1".to_string(),
        traits: None,
        metadata_admin: None,
        metadata_public: Some(obj(vec![
            ("project", obj(vec![])),
            (
                "group",
                obj(vec![(
                    "g1",
                    obj(vec![
                        ("name", s("awesome")),
                        ("project", arr(vec![JsonValue::Num(122), JsonValue::Num(334)])),
                    ]),
                )]),
            ),
            (
                "organisation",
                obj(vec![("o1", obj(vec![("projects", arr(vec![s("334"), s("777")]))]))]),
            ),
        ])),
    };
    let projects = list_project_controller(&ident, Namespace::Public).unwrap();
    assert_eq!(projects.ids, vec!["122".to_string(), "334".to_string(), "777".to_string()]);
}

#[test]
fn list_controller_maps_ids_to_display_names() {
    let ident = Identity {
        id: "u1".to_string(),
        traits: None,
        metadata_admin: None,
        metadata_public: Some(obj(vec![(
            "group",
            obj(vec![("g1", obj(vec![("name", s("awesome"))]))]),
        )])),
    };
    let m = list_controller(&ident, "group", Namespace::Public).unwrap();
    assert_eq!(m.entries, vec![("g1".to_string(), "awesome".to_string())]);
    let empty = list_controller(&ident, "organisation", Namespace::Public).unwrap();
    assert_eq!(empty.entries.len(), 0);
}

#[test]
fn listing_without_the_selected_document_fails() {
    let ident = Identity {
        id: "u1".to_string(),
        traits: None,
        metadata_admin: None,
        metadata_public: None,
    };
    assert!(matches!(
        list_project_controller(&ident, Namespace::Admin),
        Err(SyncError::NoMetadata)
    ));
}
