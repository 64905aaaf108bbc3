use telemetry_core::bridge::{
    complete_get_parameters, complete_set_parameters, route_event, Action, ClientEvent,
    ProtocolError, ReentryGate,
};
use telemetry_core::capability::{Capability, CapabilitySet, EventKind};
use telemetry_core::registry::{AdvertiseOutcome, ClientRegistry};
use telemetry_core::services::{
    complete_call, ConfigError, Request, Service, ServiceCallError, ServiceSchema, ServiceTable,
};
use telemetry_core::values::{Parameter, ParameterError, ParameterType, ParameterValue};

fn plain_service(name: &str) -> Service {
    Service {
        name: String::from(name),
        schema: ServiceSchema { name: String::from(name), request: None, response: None },
    }
}

fn all_capabilities() -> CapabilitySet {
    CapabilitySet { client_publish: true, parameters: true, time: true, services: true }
}

#[test]
fn capability_set_from_list() {
    let caps = CapabilitySet::from_list(&vec![Capability::Parameters, Capability::Time]);
    assert!(!caps.has(Capability::ClientPublish));
    assert!(caps.has(Capability::Parameters));
    assert!(caps.has(Capability::Time));
    assert!(!caps.has(Capability::Services));
    assert!(caps.allows(EventKind::GetParameters));
    assert!(!caps.allows(EventKind::MessageData));
}

#[test]
fn empty_capability_set_rejects_every_gated_event() {
    let caps = CapabilitySet::none();
    let registry = ClientRegistry::new();
    let services = ServiceTable::new(vec![plain_service("echo")]).unwrap();
    let events = vec![
        ClientEvent::MessageData { channel_id: 1, payload: vec![1, 2] },
        ClientEvent::GetParameters { names: vec![], request_id: None },
        ClientEvent::SetParameters { parameters: vec![], request_id: None },
        ClientEvent::ServiceCall {
            request: Request {
                service_name: String::from("echo"),
                call_id: 9,
                encoding: String::from("json"),
                payload: vec![],
            },
        },
    ];
    for event in events {
        match route_event(&caps, &registry, &services, 0, event) {
            Action::Reject { error: ProtocolError::CapabilityAbsent { .. } } => {}
            other => panic!("expected a capability rejection, got {:?}", other),
        }
    }
}

#[test]
fn message_data_routes_to_known_channel() {
    let caps = all_capabilities();
    let mut registry = ClientRegistry::new();
    let services = ServiceTable::new(vec![]).unwrap();
    let client = registry.register();
    let outcome = registry.advertise_channel(client, 7, String::from("scene"));
    assert_eq!(outcome, AdvertiseOutcome::Accepted);
    match route_event(
        &caps,
        &registry,
        &services,
        client,
        ClientEvent::MessageData { channel_id: 7, payload: vec![42] },
    ) {
        Action::InvokeMessageData { client_id, channel, payload } => {
            assert_eq!(client_id, client);
            assert_eq!(channel.id, 7);
            assert_eq!(channel.topic, "scene");
            assert_eq!(payload, vec![42]);
        }
        other => panic!("expected a message-data invocation, got {:?}", other),
    }
}

#[test]
fn message_data_for_unknown_channel_is_rejected() {
    let caps = all_capabilities();
    let mut registry = ClientRegistry::new();
    let services = ServiceTable::new(vec![]).unwrap();
    let client = registry.register();
    match route_event(
        &caps,
        &registry,
        &services,
        client,
        ClientEvent::MessageData { channel_id: 3, payload: vec![] },
    ) {
        Action::Reject { error: ProtocolError::UnknownChannel { channel_id } } => {
            assert_eq!(channel_id, 3);
        }
        other => panic!("expected an unknown-channel rejection, got {:?}", other),
    }
}

#[test]
fn client_ids_unique_and_reusable_only_after_disconnect() {
    let mut registry = ClientRegistry::new();
    let a = registry.register();
    let b = registry.register();
    let c = registry.register();
    assert_ne!(a, b);
    assert_ne!(a, c);
    assert_ne!(b, c);
    assert!(registry.unregister(b));
    assert!(!registry.is_connected(b));
    let d = registry.register();
    assert!(registry.is_connected(a));
    assert!(registry.is_connected(c));
    assert_ne!(d, a);
    assert_ne!(d, c);
}

#[test]
fn duplicate_channel_advertisement_is_rejected() {
    let mut registry = ClientRegistry::new();
    let client = registry.register();
    assert_eq!(
        registry.advertise_channel(client, 1, String::from("a")),
        AdvertiseOutcome::Accepted
    );
    assert_eq!(
        registry.advertise_channel(client, 1, String::from("b")),
        AdvertiseOutcome::DuplicateChannel
    );
    assert_eq!(
        registry.advertise_channel(client + 1, 1, String::from("c")),
        AdvertiseOutcome::UnknownClient
    );
    assert!(registry.withdraw_channel(client, 1));
    assert!(!registry.withdraw_channel(client, 1));
    assert_eq!(
        registry.advertise_channel(client, 1, String::from("b")),
        AdvertiseOutcome::Accepted
    );
}

#[test]
fn duplicate_service_names_are_rejected_at_configuration() {
    let result = ServiceTable::new(vec![plain_service("echo"), plain_service("echo")]);
    match result {
        Err(ConfigError::DuplicateServiceName { name }) => assert_eq!(name, "echo"),
        Ok(_) => panic!("expected a duplicate-name rejection"),
    }
}

#[test]
fn service_echo_round_trip_and_missing_service() {
    let caps = all_capabilities();
    let registry = ClientRegistry::new();
    let services = ServiceTable::new(vec![plain_service("echo")]).unwrap();
    let request = Request {
        service_name: String::from("echo"),
        call_id: 17,
        encoding: String::from("raw"),
        payload: b"hi".to_vec(),
    };
    let (index, request) = match route_event(
        &caps,
        &registry,
        &services,
        0,
        ClientEvent::ServiceCall { request },
    ) {
        Action::InvokeService { index, request, .. } => (index, request),
        other => panic!("expected a service invocation, got {:?}", other),
    };
    assert_eq!(services.services[index].name, "echo");
    // A handler that returns its input payload.
    let handler_result = Ok(request.payload.clone());
    let response = complete_call(request.call_id, handler_result).unwrap();
    assert_eq!(response.call_id, 17);
    assert_eq!(response.payload, b"hi".to_vec());

    let missing = Request {
        service_name: String::from("missing"),
        call_id: 18,
        encoding: String::from("raw"),
        payload: vec![],
    };
    match route_event(&caps, &registry, &services, 0, ClientEvent::ServiceCall { request: missing })
    {
        Action::Reject { error: ProtocolError::ServiceNotFound { call_id } } => {
            assert_eq!(call_id, 18);
        }
        other => panic!("expected a service-not-found rejection, got {:?}", other),
    }
}

#[test]
fn failed_service_handler_yields_correlated_error() {
    let result = complete_call(5, Err(String::from("handler exploded")));
    match result {
        Err(ServiceCallError::HandlerFailed { call_id, message }) => {
            assert_eq!(call_id, 5);
            assert_eq!(message, "handler exploded");
        }
        other => panic!("expected a handler failure, got {:?}", other),
    }
}

#[test]
fn failed_get_parameters_degrades_to_empty_and_server_keeps_serving() {
    let caps = all_capabilities();
    let registry = ClientRegistry::new();
    let services = ServiceTable::new(vec![]).unwrap();
    let response = complete_get_parameters(
        Err(String::from("listener failure")),
        Some(String::from("req-1")),
    );
    assert!(response.parameters.is_empty());
    assert_eq!(response.request_id, Some(String::from("req-1")));
    // Further requests from the same and other clients still route.
    for client in [0u32, 1u32] {
        match route_event(
            &caps,
            &registry,
            &services,
            client,
            ClientEvent::GetParameters { names: vec![String::from("k")], request_id: None },
        ) {
            Action::InvokeGetParameters { client_id, names, request_id } => {
                assert_eq!(client_id, client);
                assert_eq!(names, vec![String::from("k")]);
                assert_eq!(request_id, None);
            }
            other => panic!("expected a get-parameters invocation, got {:?}", other),
        }
    }
}

#[test]
fn successful_get_parameters_echoes_result_and_request_id() {
    let params = vec![Parameter::new(
        String::from("volume"),
        Some(ParameterType::Float64),
        Some(ParameterValue::Number(2.5f64.to_bits())),
    )
    .unwrap()];
    let response = complete_get_parameters(Ok(params), Some(String::from("abc")));
    assert_eq!(response.parameters.len(), 1);
    assert_eq!(response.parameters[0].name, "volume");
    assert_eq!(response.request_id, Some(String::from("abc")));
}

#[test]
fn set_parameters_result_broadcast_to_all_other_clients() {
    let mut registry = ClientRegistry::new();
    let a = registry.register();
    let b = registry.register();
    let c = registry.register();
    let authoritative = vec![Parameter::new(
        String::from("mode"),
        None,
        Some(ParameterValue::Bool(true)),
    )
    .unwrap()];
    let outcome = complete_set_parameters(
        b,
        &registry,
        Ok(authoritative),
        Some(String::from("set-1")),
    );
    assert_eq!(outcome.request_id, Some(String::from("set-1")));
    assert_eq!(outcome.values.len(), 1);
    assert_eq!(outcome.values[0].name, "mode");
    assert_eq!(outcome.values[0].value, Some(ParameterValue::Bool(true)));
    assert_eq!(outcome.notify, vec![a, c]);
}

#[test]
fn failed_set_parameters_degrades_to_empty() {
    let mut registry = ClientRegistry::new();
    let a = registry.register();
    let outcome = complete_set_parameters(a, &registry, Err(String::from("nope")), None);
    assert!(outcome.values.is_empty());
    assert_eq!(outcome.request_id, None);
    assert!(outcome.notify.is_empty());
}

#[test]
fn reentry_gate_admits_one_worker_at_a_time() {
    let mut gate = ReentryGate::new();
    assert!(gate.try_enter());
    // A second worker arriving while the first is inside is turned away.
    assert!(!gate.try_enter());
    gate.leave();
    assert!(gate.try_enter());
    gate.leave();
}

#[test]
fn parameter_construction_validates_type_value_invariant() {
    let good = Parameter::new(
        String::from("blob"),
        Some(ParameterType::ByteArray),
        Some(ParameterValue::Bytes(vec![1, 2, 3])),
    )
    .unwrap();
    assert!(good.is_consistent());
    match Parameter::new(
        String::from("blob"),
        Some(ParameterType::ByteArray),
        Some(ParameterValue::Number(1.0f64.to_bits())),
    ) {
        Err(ParameterError::ByteArrayValueMismatch { name }) => assert_eq!(name, "blob"),
        Ok(_) => panic!("expected a type/value mismatch rejection"),
    }
    let typed_only =
        Parameter::new(String::from("blob"), Some(ParameterType::ByteArray), None).unwrap();
    assert!(typed_only.is_consistent());
    let untyped = Parameter::new(String::from("n"), None, Some(ParameterValue::Number(0))).unwrap();
    assert!(untyped.is_consistent());
    // A value assembled outside the constructor is caught by the
    // validator at the boundaries where parameters arrive whole.
    let smuggled = Parameter {
        name: String::from("blob"),
        typ: Some(ParameterType::ByteArray),
        value: Some(ParameterValue::Bool(true)),
    };
    assert!(!smuggled.is_consistent());
}

#[test]
fn inconsistent_set_parameters_batch_is_rejected_before_any_handler() {
    let caps = all_capabilities();
    let registry = ClientRegistry::new();
    let services = ServiceTable::new(vec![]).unwrap();
    let ok = Parameter::new(String::from("a"), None, Some(ParameterValue::Bool(true))).unwrap();
    let smuggled = Parameter {
        name: String::from("bad"),
        typ: Some(ParameterType::ByteArray),
        value: Some(ParameterValue::Number(0)),
    };
    let event = ClientEvent::SetParameters {
        parameters: vec![ok, smuggled],
        request_id: Some(String::from("r")),
    };
    match route_event(&caps, &registry, &services, 4, event) {
        Action::Reject { error: ProtocolError::InvalidParameter { name } } => {
            assert_eq!(name, "bad");
        }
        other => panic!("expected an invalid-parameter rejection, got {:?}", other),
    }
}

#[test]
fn handler_invocations_match_qualifying_events_in_order() {
    let caps = CapabilitySet::from_list(&vec![Capability::Parameters]);
    let registry = ClientRegistry::new();
    let services = ServiceTable::new(vec![]).unwrap();
    let events = vec![
        (
            0u32,
            ClientEvent::GetParameters { names: vec![String::from("first")], request_id: None },
        ),
        // Not qualifying: ClientPublish is absent.
        (1u32, ClientEvent::MessageData { channel_id: 1, payload: vec![] }),
        (
            0u32,
            ClientEvent::SetParameters { parameters: vec![], request_id: None },
        ),
    ];
    let mut invocations = Vec::new();
    for (client, event) in events {
        match route_event(&caps, &registry, &services, client, event) {
            Action::InvokeGetParameters { names, .. } => invocations.push(names[0].clone()),
            Action::InvokeSetParameters { .. } => invocations.push(String::from("set")),
            Action::Reject { .. } => {}
            other => panic!("unexpected action {:?}", other),
        }
    }
    // Exactly the qualifying events, in receipt order.
    assert_eq!(invocations, vec![String::from("first"), String::from("set")]);
}

#[test]
fn dictionary_key_uniqueness_is_checked_at_every_depth() {
    let unique = ParameterValue::Dict(vec![
        (String::from("a"), ParameterValue::Number(0)),
        (String::from("b"), ParameterValue::Number(1)),
    ]);
    assert!(unique.is_well_formed());
    let duplicate = ParameterValue::Dict(vec![
        (String::from("a"), ParameterValue::Number(0)),
        (String::from("a"), ParameterValue::Number(1)),
    ]);
    assert!(!duplicate.is_well_formed());
    let nested_duplicate = ParameterValue::Array(vec![ParameterValue::Dict(vec![(
        String::from("outer"),
        ParameterValue::Dict(vec![
            (String::from("k"), ParameterValue::Bool(true)),
            (String::from("k"), ParameterValue::Bool(false)),
        ]),
    )])]);
    assert!(!nested_duplicate.is_well_formed());
    assert!(ParameterValue::Bytes(vec![1, 2]).is_well_formed());
}

#[test]
fn route_batch_keeps_receipt_order() {
    let caps = CapabilitySet::from_list(&vec![Capability::Parameters]);
    let registry = ClientRegistry::new();
    let services = ServiceTable::new(vec![]).unwrap();
    let events = vec![
        (0u32, ClientEvent::GetParameters { names: vec![], request_id: None }),
        (1u32, ClientEvent::MessageData { channel_id: 9, payload: vec![] }),
        (2u32, ClientEvent::SetParameters { parameters: vec![], request_id: None }),
    ];
    let actions = telemetry_core::bridge::route_batch(&caps, &registry, &services, events);
    assert_eq!(actions.len(), 3);
    assert!(matches!(actions[0], Action::InvokeGetParameters { client_id: 0, .. }));
    assert!(matches!(actions[1], Action::Reject { .. }));
    assert!(matches!(actions[2], Action::InvokeSetParameters { client_id: 2, .. }));
}
