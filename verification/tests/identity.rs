use sirius::error::SyncError;
use sirius::identity::{
    credential_query_path, first_identity, lookup_path, needs_fetch, select_document,
    should_refetch, IDType, Identity,
};
use sirius::namespace::{parse_namespace, Namespace};
use sirius::value::JsonValue;

fn obj(entries: Vec<(&str, JsonValue)>) -> JsonValue {
    JsonValue::Obj(entries.into_iter().map(|(k, v)| (k.to_string(), v)).collect())
}

fn s(x: &str) -> JsonValue {
    JsonValue::Str(x.to_string())
}

fn identity(id: &str, email: Option<&str>) -> Identity {
    Identity {
        id: id.to_string(),
        traits: email.map(|m| obj(vec![("email", s(m))])),
        metadata_admin: None,
        metadata_public: None,
    }
}

#[test]
fn first_identity_takes_the_first_of_two_records() {
    let records = vec![identity("first", Some("a@b.io")), identity("second", Some("a@b.io"))];
    let found = first_identity(records, &"a@b.io".to_string()).unwrap();
    assert_eq!(found.id, "first");
}

#[test]
fn first_identity_on_no_match_is_not_found() {
    match first_identity(Vec::new(), &"a@b.io".to_string()) {
        Err(SyncError::NotFound(c)) => assert_eq!(c, "a@b.io"),
        _ => panic!("expected a not-found error naming the credential"),
    }
}

#[test]
fn credential_query_uses_the_identifier_spelling() {
    assert_eq!(
        credential_query_path(&"lol.lol@lol.io".to_string()),
        "/admin/identities?credentials_identifier=lol.lol@lol.io"
    );
}

#[test]
fn lookup_path_dispatches_on_the_credential_kind() {
    let by_mail = IDType::Email("lol.lol@lol.io".to_string());
    assert_eq!(lookup_path(&by_mail), "/admin/identities?credentials_identifier=lol.lol@lol.io");
    assert_eq!(by_mail.id_string(), "lol.lol@lol.io");
    let by_id = IDType::ID("9f425a8d-7efc-4768-8f23-7647a74fdf13".to_string());
    assert_eq!(lookup_path(&by_id), "/admin/identities/9f425a8d-7efc-4768-8f23-7647a74fdf13");
    assert_eq!(by_id.id_string(), "9f425a8d-7efc-4768-8f23-7647a74fdf13");
}

#[test]
fn cached_identity_is_reused_for_its_own_email() {
    let cached = identity("u1", Some("a@b.io"));
    assert!(!should_refetch(&cached, &IDType::Email("a@b.io".to_string())));
    assert!(should_refetch(&cached, &IDType::Email("other@b.io".to_string())));
    assert!(!should_refetch(&cached, &IDType::ID("u1".to_string())));
    assert!(should_refetch(&cached, &IDType::ID("u2".to_string())));
}

#[test]
fn cached_identity_without_traits_is_refetched_for_email() {
    let cached = identity("u1", None);
    assert!(should_refetch(&cached, &IDType::Email("a@b.io".to_string())));
    assert!(needs_fetch(&None, &IDType::Email("a@b.io".to_string())));
    assert!(!needs_fetch(&Some(identity("u1", None)), &IDType::ID("u1".to_string())));
}

#[test]
fn parse_namespace_accepts_exactly_the_three_selectors() {
    assert!(matches!(parse_namespace("admin"), Ok(Namespace::Admin)));
    assert!(matches!(parse_namespace("public"), Ok(Namespace::Public)));
    assert!(matches!(parse_namespace("trait"), Ok(Namespace::Trait)));
    assert!(matches!(parse_namespace("Admin"), Err(SyncError::InvalidMode)));
    assert!(matches!(parse_namespace(""), Err(SyncError::InvalidMode)));
}

#[test]
fn select_document_fails_on_an_absent_document() {
    let mut ident = identity("u1", Some("a@b.io"));
    ident.metadata_public = Some(obj(vec![("project", JsonValue::Null)]));
    assert!(select_document(&ident, Namespace::Public).is_ok());
    assert!(matches!(
        select_document(&ident, Namespace::Admin),
        Err(SyncError::NoMetadata)
    ));
    assert!(select_document(&ident, Namespace::Trait).is_ok());
}
