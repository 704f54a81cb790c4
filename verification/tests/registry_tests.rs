use pact_mock_server::contract::{Contract, HttpRequest, HttpResponse, Interaction, OptionalBody};
use pact_mock_server::mock_server::{
    MatchRecord, MockServer, MockServerConfig, ServerStatus,
};
use pact_mock_server::server_manager::{
    BindOutcome, ServerManager, StartError, TlsSetup,
};

fn config() -> MockServerConfig {
    MockServerConfig { cors_preflight: false, strict_matching: false }
}

fn ping_contract() -> Contract {
    Contract {
        consumer: String::from("Consumer"),
        provider: String::from("Alice Service"),
        interactions: vec![Interaction {
            description: String::from("a ping request"),
            provider_state: None,
            request: HttpRequest {
                method: String::from("GET"),
                path: String::from("/ping"),
                body: OptionalBody::Missing,
            },
            response: HttpResponse {
                status: 200,
                headers: vec![(String::from("Content-Type"), String::from("text/plain"))],
                body: OptionalBody::Present(String::from("pong"), None),
            },
        }],
    }
}

fn get(path: &str) -> HttpRequest {
    HttpRequest {
        method: String::from("GET"),
        path: String::from(path),
        body: OptionalBody::Missing,
    }
}

#[test]
fn start_with_port_zero_returns_concrete_port() {
    let mut manager = ServerManager::new();
    let r = manager.start_mock_server(
        String::from("svc"),
        ping_contract(),
        0,
        config(),
        BindOutcome::Bound(49152),
    );
    let port = r.unwrap();
    assert!(port > 0);
    assert_eq!(port, 49152);
    assert!(manager.find_mock_server_by_port(port).is_some());
}

#[test]
fn start_bind_failure_registers_nothing() {
    let mut manager = ServerManager::new();
    let r = manager.start_mock_server(
        String::from("svc"),
        ping_contract(),
        1,
        config(),
        BindOutcome::BindFailed(String::from("address in use")),
    );
    assert!(matches!(r, Err(StartError::BindError(m)) if m == "address in use"));
    assert_eq!(manager.len(), 0);
}

#[test]
fn start_duplicate_id_is_rejected() {
    let mut manager = ServerManager::new();
    manager
        .start_mock_server(
            String::from("svc"),
            ping_contract(),
            0,
            config(),
            BindOutcome::Bound(49153),
        )
        .unwrap();
    let r = manager.start_mock_server(
        String::from("svc"),
        ping_contract(),
        0,
        config(),
        BindOutcome::Bound(49154),
    );
    assert!(matches!(r, Err(StartError::DuplicateServerError)));
    assert_eq!(manager.len(), 1);
}

#[test]
fn start_tls_rejects_bad_material() {
    let mut manager = ServerManager::new();
    let r = manager.start_tls_mock_server(
        String::from("tls"),
        ping_contract(),
        0,
        TlsSetup::Rejected(String::from("bad certificate")),
        config(),
        BindOutcome::Bound(49155),
    );
    assert!(matches!(r, Err(StartError::TlsConfigError(m)) if m == "bad certificate"));
    assert_eq!(manager.len(), 0);
}

#[test]
fn start_tls_marks_server_tls() {
    let mut manager = ServerManager::new();
    let port = manager
        .start_tls_mock_server(
            String::from("tls"),
            ping_contract(),
            0,
            TlsSetup::Accepted,
            config(),
            BindOutcome::Bound(49156),
        )
        .unwrap();
    let server = manager.find_mock_server_by_port(port).unwrap();
    assert!(server.tls);
}

#[test]
fn shutdown_unknown_target_changes_nothing() {
    let mut manager = ServerManager::new();
    manager
        .start_mock_server(
            String::from("svc"),
            ping_contract(),
            0,
            config(),
            BindOutcome::Bound(49157),
        )
        .unwrap();
    assert!(!manager.shutdown_mock_server_by_id(&String::from("nope"), true));
    assert!(!manager.shutdown_mock_server_by_port(1234, true));
    assert_eq!(manager.len(), 1);
    assert!(manager.find_mock_server_by_id(&String::from("svc")).is_some());
}

#[test]
fn shutdown_with_undelivered_signal_changes_nothing() {
    let mut manager = ServerManager::new();
    manager
        .start_mock_server(
            String::from("svc"),
            ping_contract(),
            0,
            config(),
            BindOutcome::Bound(49158),
        )
        .unwrap();
    assert!(!manager.shutdown_mock_server_by_id(&String::from("svc"), false));
    assert_eq!(manager.len(), 1);
}

#[test]
fn map_mock_servers_returns_one_result_per_server_in_either_start_order() {
    let ids = ["a", "b", "c"];
    let mut forward = ServerManager::new();
    for (i, id) in ids.iter().enumerate() {
        forward
            .start_mock_server(
                String::from(*id),
                ping_contract(),
                0,
                config(),
                BindOutcome::Bound(49160 + i as u16),
            )
            .unwrap();
    }
    let mut backward = ServerManager::new();
    for (i, id) in ids.iter().rev().enumerate() {
        backward
            .start_mock_server(
                String::from(*id),
                ping_contract(),
                0,
                config(),
                BindOutcome::Bound(49170 + i as u16),
            )
            .unwrap();
    }
    let forward_ids: Vec<String> =
        forward.map_mock_servers().into_iter().map(|s| s.id).collect();
    let backward_ids: Vec<String> =
        backward.map_mock_servers().into_iter().map(|s| s.id).collect();
    assert_eq!(forward_ids, vec!["a", "b", "c"]);
    assert_eq!(backward_ids, vec!["a", "b", "c"]);
}

#[test]
fn scenario_single_interaction_served_and_shut_down() {
    let mut manager = ServerManager::new();
    let port = manager
        .start_mock_server(
            String::from("svc1"),
            ping_contract(),
            0,
            config(),
            BindOutcome::Bound(49180),
        )
        .unwrap();
    assert!(port > 0);

    let response = manager.handle_request_by_port(port, &get("/ping")).unwrap();
    assert_eq!(response.status, 200);
    assert!(matches!(&response.body, OptionalBody::Present(t, None) if t == "pong"));

    let server = manager.find_mock_server_by_port(port).unwrap();
    let log = server.matches();
    assert_eq!(log.len(), 1);
    assert!(matches!(&log[0], MatchRecord::Matched(d) if d == "a ping request"));
    assert_eq!(server.metrics().requests, 1);
    assert_eq!(server.metrics().requests_in_error, 0);

    assert!(manager.shutdown_mock_server_by_id(&String::from("svc1"), true));
    assert!(manager.find_mock_server_by_port(port).is_none());
    assert!(manager.handle_request_by_port(port, &get("/ping")).is_none());
}

#[test]
fn scenario_shutting_one_server_down_leaves_the_other_untouched() {
    let mut manager = ServerManager::new();
    let port_a = manager
        .start_mock_server(
            String::from("a"),
            ping_contract(),
            0,
            config(),
            BindOutcome::Bound(49190),
        )
        .unwrap();
    let port_b = manager
        .start_mock_server(
            String::from("b"),
            ping_contract(),
            0,
            config(),
            BindOutcome::Bound(49191),
        )
        .unwrap();

    manager.handle_request_by_port(port_b, &get("/ping")).unwrap();
    assert!(manager.shutdown_mock_server_by_id(&String::from("a"), true));

    let b = manager.find_mock_server_by_port(port_b).unwrap();
    assert_eq!(b.id, "b");
    assert_eq!(b.matches().len(), 1);
    assert_eq!(b.metrics().requests, 1);
    assert!(manager.find_mock_server_by_port(port_a).is_none());
}

#[test]
fn scenario_unmatched_request_is_recorded_and_server_keeps_running() {
    let mut manager = ServerManager::new();
    let port = manager
        .start_mock_server(
            String::from("svc"),
            ping_contract(),
            0,
            config(),
            BindOutcome::Bound(49200),
        )
        .unwrap();

    let response = manager.handle_request_by_port(port, &get("/missing")).unwrap();
    assert_eq!(response.status, 500);
    assert!(
        matches!(&response.body, OptionalBody::Present(t, None) if t == "No matching interaction found")
    );

    let server = manager.find_mock_server_by_port(port).unwrap();
    let log = server.matches();
    assert_eq!(log.len(), 1);
    assert!(matches!(&log[0], MatchRecord::Mismatch(m, p) if m == "GET" && p == "/missing"));
    assert_eq!(server.metrics().requests_in_error, 1);
    assert_eq!(server.status, ServerStatus::Running);
    assert!(!server.all_matched());
}

#[test]
fn reset_clears_log_and_counters() {
    let mut manager = ServerManager::new();
    let port = manager
        .start_mock_server(
            String::from("svc"),
            ping_contract(),
            0,
            config(),
            BindOutcome::Bound(49210),
        )
        .unwrap();
    manager.handle_request_by_port(port, &get("/missing")).unwrap();
    assert!(manager.reset_mock_server_by_port(port));
    let server = manager.find_mock_server_by_port(port).unwrap();
    assert_eq!(server.matches().len(), 0);
    assert_eq!(server.metrics().requests, 0);
    assert!(!manager.reset_mock_server_by_port(1));
}

#[test]
fn cors_preflight_is_answered_without_recording() {
    let mut manager = ServerManager::new();
    let cors = MockServerConfig { cors_preflight: true, strict_matching: false };
    let port = manager
        .start_mock_server(
            String::from("svc"),
            ping_contract(),
            0,
            cors,
            BindOutcome::Bound(49220),
        )
        .unwrap();
    let request = HttpRequest {
        method: String::from("OPTIONS"),
        path: String::from("/ping"),
        body: OptionalBody::Missing,
    };
    let response = manager.handle_request_by_port(port, &request).unwrap();
    assert_eq!(response.status, 200);
    assert_eq!(
        response.headers,
        vec![(String::from("Access-Control-Allow-Origin"), String::from("*"))]
    );
    let server = manager.find_mock_server_by_port(port).unwrap();
    assert_eq!(server.matches().len(), 0);
    assert_eq!(server.metrics().requests, 0);
}

#[test]
fn mock_server_lifecycle_runs_to_stopped() {
    let mut server = MockServer::new(
        String::from("one"),
        ping_contract(),
        config(),
        false,
    );
    assert_eq!(server.status, ServerStatus::Starting);
    assert!(server.port.is_none());
    server.bound(49230);
    assert_eq!(server.status, ServerStatus::Running);
    assert_eq!(server.port, Some(49230));
    let response = server.handle_request(&get("/ping"));
    assert_eq!(response.status, 200);
    assert!(server.all_matched());
    assert!(server.shutdown());
    assert_eq!(server.status, ServerStatus::ShuttingDown);
    assert!(!server.shutdown());
    server.mark_stopped();
    assert_eq!(server.status, ServerStatus::Stopped);
}

#[test]
fn first_interaction_wins_when_two_match() {
    let mut contract = ping_contract();
    contract.interactions.push(Interaction {
        description: String::from("a second ping"),
        provider_state: None,
        request: HttpRequest {
            method: String::from("GET"),
            path: String::from("/ping"),
            body: OptionalBody::Missing,
        },
        response: HttpResponse {
            status: 204,
            headers: vec![],
            body: OptionalBody::Empty,
        },
    });
    assert_eq!(
        contract.find_matching_interaction(&String::from("GET"), &String::from("/ping")),
        Some(0)
    );
    assert_eq!(
        contract.find_matching_interaction(&String::from("POST"), &String::from("/ping")),
        None
    );
}
