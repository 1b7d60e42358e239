use sirius::config::{Iam, Kafka, Opa, Ports, Producer, Service, SiriusConfig};
use sirius::controller::update::{build_propagation, collect_projects, collect_users, Data};
use sirius::error::SyncError;
use sirius::identity::IDType;
use sirius::namespace::{Mode, Namespace};
use sirius::numeral::u64_to_string;
use sirius::outcome::{error_report, outcome_messages, ErrorData, SinkMessage};
use sirius::value::JsonValue;

fn service(addr: &str, main: &str, health: &str) -> Service {
    Service {
        addr: addr.to_string(),
        ports: Ports { main: main.to_string(), health: health.to_string() },
    }
}

#[test]
fn producer_update_wires_every_topic_once() {
    let mut producer = Producer {
        topics: vec!["notif".to_string(), "error".to_string(), "notif".to_string()],
        clients: None,
    };
    assert!(producer.update("broker:9092").is_ok());
    let wired = producer.clients.as_ref().unwrap();
    assert_eq!(wired.ids, vec!["notif".to_string(), "error".to_string()]);
    // updating again keeps the wired producers
    assert!(producer.update("broker:9092").is_ok());
    assert_eq!(producer.clients.unwrap().ids, vec!["notif".to_string(), "error".to_string()]);
}

#[test]
fn kafka_update_wires_its_producers() {
    let mut kafka = Kafka {
        broker: "0.0.0.0:9092".to_string(),
        producers: Producer { topics: vec!["examples".to_string()], clients: None },
    };
    assert!(kafka.update().is_ok());
    assert_eq!(kafka.producers.clients.unwrap().ids, vec!["examples".to_string()]);
    assert_eq!(kafka.broker, "0.0.0.0:9092");
}

#[test]
fn iam_addresses_are_assembled_from_the_service_config() {
    let iam = Iam { service: service("0.0.0.0", "8383", "8181") };
    assert_eq!(iam.address(), "http://0.0.0.0:8383");
    assert_eq!(iam.ready_address(), "http://0.0.0.0:8181/api/iam/ready");
}

#[test]
fn configured_namespace_is_validated_once() {
    let config = SiriusConfig {
        service: service("0.0.0.0", "8080", "8181"),
        iam: Iam { service: service("0.0.0.0", "8282", "8383") },
        opa: Opa { addr: "http://0.0.0.0:8000".to_string(), mode: "public".to_string() },
        kratos: sirius::config::Kratos { addr: "http://0.0.0.0:9000".to_string() },
        kafka: Kafka {
            broker: "0.0.0.0:9092".to_string(),
            producers: Producer { topics: Vec::new(), clients: None },
        },
    };
    assert!(matches!(config.selected_namespace(), Ok(Namespace::Public)));
    let mut wrong = config;
    wrong.opa.mode = "everything".to_string();
    assert!(matches!(wrong.selected_namespace(), Err(SyncError::InvalidMode)));
}

#[test]
fn decimal_rendering_matches_the_usual_numerals() {
    assert_eq!(u64_to_string(0), "0");
    assert_eq!(u64_to_string(7), "7");
    assert_eq!(u64_to_string(42), "42");
    assert_eq!(u64_to_string(1234567890), "1234567890");
    assert_eq!(u64_to_string(u64::MAX), "18446744073709551615");
}

#[test]
fn failure_messages_go_to_the_error_sink_then_ko() {
    let messages = outcome_messages(&Err("boom".to_string()), &"corr-1".to_string());
    assert_eq!(messages.len(), 2);
    match &messages[0] {
        SinkMessage::Error(data, correlation) => {
            assert_eq!(data.code, "webhook_internal_error");
            assert_eq!(data.message, "boom");
            assert_eq!(correlation, "corr-1");
        }
        _ => panic!("expected the error record first"),
    }
    match &messages[1] {
        SinkMessage::Notif(p) => assert_eq!(p, "ko"),
        _ => panic!("expected the ko marker second"),
    }
}

#[test]
fn error_report_wraps_the_message_under_the_fixed_code() {
    match error_report("it broke".to_string(), &"corr-2".to_string()) {
        SinkMessage::Error(ErrorData { code, message }, correlation) => {
            assert_eq!(code, "webhook_internal_error");
            assert_eq!(message, "it broke");
            assert_eq!(correlation, "corr-2");
        }
        _ => panic!("expected an error record"),
    }
}

#[test]
fn sync_error_messages_name_what_failed() {
    assert_eq!(
        SyncError::NotFound("a@b.io".to_string()).message(),
        "no identity found for a@b.io"
    );
    assert_eq!(
        SyncError::Shape("project".to_string()).message(),
        "malformed metadata under key project"
    );
    assert_eq!(SyncError::NoMetadata.message(), "no metadata in this identity");
}

#[test]
fn build_propagation_carries_the_namespace_mode() {
    let data = Data {
        id: IDType::Email("lol.lol@lol.io".to_string()),
        ressource_type: "project".to_string(),
        ressource_id: "222".to_string(),
        value: JsonValue::Arr(vec![JsonValue::Str("contributor".to_string())]),
    };
    let request = build_propagation(&"identity-1".to_string(), &data, Namespace::Public);
    assert_eq!(request.target_id, "identity-1");
    assert_eq!(request.permission_type, "project");
    assert_eq!(request.resource_id, "222");
    assert_eq!(request.mode, Mode::Public);
}

#[test]
fn batches_are_split_into_user_and_project_mutations() {
    let batch = vec![
        Data {
            id: IDType::ID("u0".to_string()),
            ressource_type: "user".to_string(),
            ressource_id: "u1".to_string(),
            value: JsonValue::Str("admin".to_string()),
        },
        Data {
            id: IDType::ID("u0".to_string()),
            ressource_type: "project".to_string(),
            ressource_id: "p1".to_string(),
            value: JsonValue::Null,
        },
        Data {
            id: IDType::ID("u0".to_string()),
            ressource_type: "user".to_string(),
            ressource_id: "u2".to_string(),
            value: JsonValue::Null,
        },
    ];
    let users = collect_users(&batch);
    assert_eq!(users.len(), 2);
    assert_eq!(users[0].0, "u1");
    assert_eq!(users[1].0, "u2");
    let projects = collect_projects(&batch);
    assert_eq!(projects, vec!["p1".to_string()]);
}
