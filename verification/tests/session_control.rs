use telemetry_core::bridge::ProtocolError;
use telemetry_core::capability::{Capability, CapabilitySet};
use telemetry_core::services::{ConfigError, Service, ServiceSchema};
use telemetry_core::session::{fresh_session_id, start_server, Lifecycle, ServerConfig, SessionId};
use telemetry_core::values::{Parameter, ParameterError, ParameterType, ParameterValue};

fn plain_service(name: &str) -> Service {
    Service {
        name: String::from(name),
        schema: ServiceSchema { name: String::from(name), request: None, response: None },
    }
}

fn running_server(capabilities: CapabilitySet) -> telemetry_core::session::Server {
    start_server(
        ServerConfig {
            name: Some(String::from("test-server")),
            session_id: None,
            capabilities,
            supported_encodings: vec![String::from("json")],
            services: vec![],
        },
        1_000,
    )
    .unwrap()
}

fn full_caps() -> CapabilitySet {
    CapabilitySet { client_publish: true, parameters: true, time: true, services: true }
}

#[test]
fn start_derives_session_id_from_clock() {
    let server = running_server(full_caps());
    assert_eq!(server.lifecycle, Lifecycle::Running);
    assert_eq!(server.session_id, SessionId::Generated { millis: 1_000, seq: 0 });
}

#[test]
fn start_accepts_configured_session_id() {
    let server = start_server(
        ServerConfig {
            name: None,
            session_id: Some(String::from("fixed")),
            capabilities: CapabilitySet::none(),
            supported_encodings: vec![],
            services: vec![],
        },
        7,
    )
    .unwrap();
    assert_eq!(server.session_id, SessionId::Custom(String::from("fixed")));
}

#[test]
fn start_rejects_duplicate_service_names() {
    let result = start_server(
        ServerConfig {
            name: None,
            session_id: None,
            capabilities: full_caps(),
            supported_encodings: vec![],
            services: vec![plain_service("a"), plain_service("a")],
        },
        0,
    );
    match result {
        Err(ConfigError::DuplicateServiceName { name }) => assert_eq!(name, "a"),
        Ok(_) => panic!("expected a duplicate-name rejection"),
    }
}

#[test]
fn stop_is_idempotent() {
    let mut server = running_server(full_caps());
    server.stop();
    assert_eq!(server.lifecycle, Lifecycle::Stopped);
    server.stop();
    assert_eq!(server.lifecycle, Lifecycle::Stopped);
}

#[test]
fn clear_session_generates_fresh_id_and_notifies_everyone() {
    let mut server = running_server(full_caps());
    let a = server.on_connect();
    let b = server.on_connect();
    let before = SessionId::Generated { millis: 1_000, seq: 0 };
    assert_eq!(server.session_id, before);
    // Same clock millisecond as the start: the id must still change.
    let notice = server.clear_session(None, 1_000).unwrap();
    assert_ne!(server.session_id, before);
    assert_eq!(notice.recipients, vec![a, b]);
    // And again, with a moved clock.
    let second = server.clear_session(None, 2_000).unwrap();
    assert_eq!(server.session_id, SessionId::Generated { millis: 2_000, seq: 0 });
    assert_eq!(second.recipients, vec![a, b]);
}

#[test]
fn clear_session_takes_supplied_id() {
    let mut server = running_server(full_caps());
    let notice = server.clear_session(Some(String::from("reset-1")), 5).unwrap();
    assert_eq!(server.session_id, SessionId::Custom(String::from("reset-1")));
    assert!(notice.recipients.is_empty());
}

#[test]
fn clear_session_after_stop_is_a_no_op() {
    let mut server = running_server(full_caps());
    server.stop();
    let before = SessionId::Generated { millis: 1_000, seq: 0 };
    assert!(server.clear_session(None, 9_999).is_none());
    assert_eq!(server.session_id, before);
}

#[test]
fn broadcast_time_reaches_clients_only_with_time_capability() {
    let mut with_time = running_server(full_caps());
    let a = with_time.on_connect();
    let broadcast = with_time.broadcast_time(123_456);
    assert_eq!(broadcast.timestamp_nanos, 123_456);
    assert_eq!(broadcast.recipients, vec![a]);

    let mut without_time = running_server(CapabilitySet {
        client_publish: true,
        parameters: true,
        time: false,
        services: true,
    });
    without_time.on_connect();
    let silent = without_time.broadcast_time(123_456);
    assert_eq!(silent.timestamp_nanos, 123_456);
    assert!(silent.recipients.is_empty());
}

#[test]
fn publish_parameter_values_reaches_all_connected_clients() {
    let mut server = running_server(full_caps());
    let a = server.on_connect();
    let b = server.on_connect();
    let broadcast = server
        .publish_parameter_values(vec![Parameter::new(
            String::from("speed"),
            None,
            Some(ParameterValue::Number(3.25f64.to_bits())),
        )
        .unwrap()])
        .unwrap();
    assert_eq!(broadcast.recipients, vec![a, b]);
    assert_eq!(broadcast.parameters.len(), 1);
    assert_eq!(broadcast.parameters[0].name, "speed");
}

#[test]
fn publish_rejects_an_inconsistent_batch_whole() {
    let mut server = running_server(full_caps());
    server.on_connect();
    let smuggled = Parameter {
        name: String::from("bad"),
        typ: Some(ParameterType::ByteArray),
        value: Some(ParameterValue::Bool(false)),
    };
    match server.publish_parameter_values(vec![smuggled]) {
        Err(ParameterError::ByteArrayValueMismatch { name }) => assert_eq!(name, "bad"),
        Ok(_) => panic!("expected a type/value mismatch rejection"),
    }
}

#[test]
fn advertise_gated_by_client_publish_capability() {
    let mut gated = running_server(CapabilitySet {
        client_publish: false,
        parameters: true,
        time: true,
        services: true,
    });
    let client = gated.on_connect();
    match gated.handle_advertise(client, 1, String::from("topic")) {
        Err(ProtocolError::CapabilityAbsent { missing, .. }) => {
            assert_eq!(missing, Capability::ClientPublish);
        }
        other => panic!("expected a capability rejection, got {:?}", other),
    }
    match gated.handle_unadvertise(client, 1) {
        Err(ProtocolError::CapabilityAbsent { missing, .. }) => {
            assert_eq!(missing, Capability::ClientPublish);
        }
        other => panic!("expected a capability rejection, got {:?}", other),
    }

    let mut open = running_server(full_caps());
    let client = open.on_connect();
    assert!(open.handle_advertise(client, 1, String::from("topic")).is_ok());
    match open.handle_advertise(client, 1, String::from("other")) {
        Err(ProtocolError::DuplicateChannel { channel_id }) => assert_eq!(channel_id, 1),
        other => panic!("expected a duplicate-channel rejection, got {:?}", other),
    }
    match open.handle_advertise(client + 1, 2, String::from("topic")) {
        Err(ProtocolError::UnknownClient { client_id }) => assert_eq!(client_id, client + 1),
        other => panic!("expected an unknown-client rejection, got {:?}", other),
    }
    assert_eq!(open.handle_unadvertise(client, 1), Ok(true));
    assert_eq!(open.handle_unadvertise(client, 1), Ok(false));
}

#[test]
fn disconnect_releases_the_client() {
    let mut server = running_server(full_caps());
    let a = server.on_connect();
    let b = server.on_connect();
    assert!(server.on_disconnect(a));
    assert!(!server.on_disconnect(a));
    let broadcast = server.publish_parameter_values(vec![]).unwrap();
    assert_eq!(broadcast.recipients, vec![b]);
    // The id counter is untouched by disconnects, so later connects stay
    // within the contracts alone.
    let c = server.on_connect();
    assert_ne!(c, b);
}

#[test]
fn fresh_session_id_differs_even_at_sequence_limit() {
    let stuck_clock = SessionId::Generated { millis: 5, seq: u64::MAX };
    let next = fresh_session_id(&stuck_clock, 5);
    assert_ne!(next, stuck_clock);
    assert_eq!(next, SessionId::Generated { millis: 5, seq: 0 });
    let custom = SessionId::Custom(String::from("x"));
    assert_eq!(fresh_session_id(&custom, 9), SessionId::Generated { millis: 9, seq: 0 });
}
