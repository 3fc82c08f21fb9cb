use hedge_system_ws::json::JsonValue;
use hedge_system_ws::manager::AcceptError;
use hedge_system_ws::manager::SessionAction;
use hedge_system_ws::manager::WSServerConfig;
use hedge_system_ws::manager::WSServerManager;
use hedge_system_ws::manager::WsFrame;
use hedge_system_ws::metrics::PerformanceWarning;
use hedge_system_ws::parse::parse_json;
use hedge_system_ws::protocol::ProtocolError;

const TOKEN: &str = "hedge-system-default-token";

fn config(port: u16, max: usize, heartbeat: u64, timeout: u64) -> WSServerConfig {
    WSServerConfig {
        port,
        host: "127.0.0.1".to_string(),
        auth_token: TOKEN.to_string(),
        max_connections: max,
        heartbeat_interval_seconds: heartbeat,
        connection_timeout_seconds: timeout,
    }
}

fn reply_field(reply: &str, key: &str) -> Option<String> {
    let doc = parse_json(reply).expect("reply must be valid JSON");
    match doc.get(&key.to_string()) {
        Some(JsonValue::Str(s)) => Some(s.clone()),
        _ => None,
    }
}

fn auth_text() -> String {
    format!(
        "{{\"type\":\"AUTH\",\"token\":\"{}\",\"eaInfo\":{{\"version\":\"1.2\",\"platform\":\"MT5\",\"account\":\"A1\"}}}}",
        TOKEN
    )
}

#[test]
fn start_stop_cycle() {
    let mut m = WSServerManager::default();
    m.apply_start_params(9001, None, None);
    assert!(m.start_server(1_000).is_ok());
    let status = m.get_status(1_000);
    assert!(status.is_running);
    assert_eq!(status.port, 9001);
    assert_eq!(status.connected_clients, 0);
    assert!(status.started_at.is_some());

    assert!(m.start_server(2_000).is_err());

    assert!(m.stop_server().is_ok());
    let status = m.get_status(3_000);
    assert!(!status.is_running);
    assert!(status.started_at.is_none());
}

#[test]
fn stop_is_idempotent_and_restart_is_clean() {
    let mut m = WSServerManager::default();
    m.start_server(0).unwrap();
    let id = m.accept_client(10).unwrap();
    m.handle_frame(&id, WsFrame::Text("{\"type\":\"HEARTBEAT\"}".to_string()), 20);
    assert!(m.get_status(30).total_messages_received > 0);

    m.stop_server().unwrap();
    m.stop_server().unwrap();
    let stopped = m.get_status(40);
    assert!(!stopped.is_running);
    assert_eq!(stopped.connected_clients, 0);

    m.start_server(50).unwrap();
    let fresh = m.get_status(60);
    assert!(fresh.is_running);
    assert_eq!(fresh.total_messages_received, 0);
    assert_eq!(fresh.total_messages_sent, 0);
    assert_eq!(fresh.errors, 0);
    assert_eq!(fresh.connected_clients, 0);
}

#[test]
fn auth_success_marks_client_and_replies() {
    let mut m = WSServerManager::default();
    m.start_server(0).unwrap();
    let id = m.accept_client(100).unwrap();

    let action = m.handle_frame(&id, WsFrame::Text(auth_text()), 200);
    let reply = match action {
        SessionAction::Reply(r) => r,
        _ => panic!("AUTH must produce a reply"),
    };
    assert_eq!(reply_field(&reply, "type").as_deref(), Some("AUTH_SUCCESS"));
    assert_eq!(reply_field(&reply, "clientId").as_deref(), Some(id.as_str()));
    assert!(reply_field(&reply, "timestamp").is_some());

    let clients = m.get_clients();
    assert_eq!(clients.len(), 1);
    assert!(clients[0].authenticated);
    let ea = clients[0].ea_info.as_ref().expect("eaInfo was sent");
    assert_eq!(ea.platform, "MT5");
    assert_eq!(ea.version, "1.2");
    assert_eq!(ea.account, "A1");
    assert_eq!(m.get_status(300).total_messages_sent, 1);
    assert_eq!(m.get_status(300).total_messages_received, 1);
}

#[test]
fn auth_failure_counts_error_and_keeps_client() {
    let mut m = WSServerManager::default();
    m.start_server(0).unwrap();
    let id = m.accept_client(100).unwrap();

    let action = m.handle_frame(
        &id,
        WsFrame::Text("{\"type\":\"AUTH\",\"token\":\"bad\"}".to_string()),
        200,
    );
    assert!(matches!(action, SessionAction::NoAction));
    let status = m.get_status(300);
    assert_eq!(status.errors, 1);
    assert_eq!(status.connected_clients, 1);
    let clients = m.get_clients();
    assert!(!clients[0].authenticated);
    assert_eq!(clients[0].error_count, 1);
}

#[test]
fn auth_without_token_is_an_error() {
    let mut m = WSServerManager::default();
    m.start_server(0).unwrap();
    let id = m.accept_client(100).unwrap();
    let action = m.handle_frame(&id, WsFrame::Text("{\"type\":\"AUTH\"}".to_string()), 200);
    assert!(matches!(action, SessionAction::NoAction));
    assert_eq!(m.get_status(300).errors, 1);
}

#[test]
fn unauthenticated_event_is_refused_but_not_fatal() {
    let mut m = WSServerManager::default();
    m.start_server(0).unwrap();
    let id = m.accept_client(100).unwrap();

    let action = m.handle_frame(
        &id,
        WsFrame::Text(
            "{\"type\":\"PRICE\",\"symbol\":\"EURUSD\",\"bid\":1.1,\"ask\":1.1001}".to_string(),
        ),
        200,
    );
    assert!(matches!(action, SessionAction::NoAction));
    let status = m.get_status(300);
    assert_eq!(status.errors, 1);
    assert_eq!(status.connected_clients, 1);
}

#[test]
fn authenticated_event_is_forwarded() {
    let mut m = WSServerManager::default();
    m.start_server(0).unwrap();
    let id = m.accept_client(100).unwrap();
    m.handle_frame(&id, WsFrame::Text(auth_text()), 200);

    let text = "{\"type\":\"PRICE\",\"symbol\":\"EURUSD\",\"bid\":1.1,\"ask\":1.1001}";
    let action = m.handle_frame(&id, WsFrame::Text(text.to_string()), 300);
    match action {
        SessionAction::Forward(t) => assert_eq!(t, text),
        _ => panic!("an authenticated event is handed upward"),
    }
    assert_eq!(m.get_status(400).errors, 0);
}

#[test]
fn unknown_type_and_missing_type_are_errors() {
    let mut m = WSServerManager::default();
    m.start_server(0).unwrap();
    let id = m.accept_client(100).unwrap();
    m.handle_frame(&id, WsFrame::Text("{\"type\":\"NONSENSE\"}".to_string()), 200);
    m.handle_frame(&id, WsFrame::Text("{\"type\":7}".to_string()), 210);
    m.handle_frame(&id, WsFrame::Text("{}".to_string()), 220);
    assert_eq!(m.get_status(300).errors, 3);
}

#[test]
fn malformed_json_counts_error_and_keeps_connection() {
    let mut m = WSServerManager::default();
    m.start_server(0).unwrap();
    let id = m.accept_client(100).unwrap();

    let action = m.handle_frame(&id, WsFrame::Text("{not json".to_string()), 200);
    assert!(matches!(action, SessionAction::NoAction));
    let status = m.get_status(300);
    assert_eq!(status.errors, 1);
    assert_eq!(status.connected_clients, 1);
    assert_eq!(status.total_messages_received, 1);
    assert_eq!(status.total_messages_sent, 0);
}

#[test]
fn heartbeat_is_acked_each_time() {
    let mut m = WSServerManager::default();
    m.start_server(0).unwrap();
    let id = m.accept_client(100).unwrap();

    for (i, now) in [1_000u64, 2_000, 3_000].iter().enumerate() {
        let action = m.handle_frame(&id, WsFrame::Text("{\"type\":\"HEARTBEAT\"}".to_string()), *now);
        let reply = match action {
            SessionAction::Reply(r) => r,
            _ => panic!("HEARTBEAT must produce a reply"),
        };
        assert_eq!(reply_field(&reply, "type").as_deref(), Some("HEARTBEAT_ACK"));
        assert_eq!(m.get_status(*now).total_messages_sent as usize, i + 1);
    }
}

#[test]
fn ping_gets_pong_and_pong_refreshes_heartbeat() {
    let mut m = WSServerManager::default();
    m.start_server(0).unwrap();
    let id = m.accept_client(0).unwrap();

    let action = m.handle_frame(&id, WsFrame::Ping(vec![1, 2, 3]), 500);
    match action {
        SessionAction::PongReply(p) => assert_eq!(p, vec![1, 2, 3]),
        _ => panic!("a ping is answered with a pong"),
    }

    // A pong refreshes the heartbeat: the reaper then keeps the client.
    m.update_config(config(8080, 10, 1, 2));
    let action = m.handle_frame(&id, WsFrame::Pong(vec![]), 2_500);
    assert!(matches!(action, SessionAction::NoAction));
    let (removed, _) = m.heartbeat_tick(3_000);
    assert!(removed.is_empty());
    assert_eq!(m.get_clients().len(), 1);
}

#[test]
fn binary_frames_count_against_the_client() {
    let mut m = WSServerManager::default();
    m.start_server(0).unwrap();
    let id = m.accept_client(0).unwrap();
    let action = m.handle_frame(&id, WsFrame::Binary(vec![0xde, 0xad]), 100);
    assert!(matches!(action, SessionAction::NoAction));
    assert_eq!(m.get_clients()[0].error_count, 1);
    assert_eq!(m.get_status(200).errors, 0);
}

#[test]
fn close_frame_ends_the_session() {
    let mut m = WSServerManager::default();
    m.start_server(0).unwrap();
    let id = m.accept_client(0).unwrap();
    let action = m.handle_frame(&id, WsFrame::Close, 100);
    assert!(matches!(action, SessionAction::CloseSession));
    m.session_closed(&id);
    m.session_closed(&id);
    assert_eq!(m.get_clients().len(), 0);
}

#[test]
fn reaper_evicts_silent_clients_within_a_tick() {
    let mut m = WSServerManager::default();
    m.update_config(config(8080, 10, 1, 2));
    m.start_server(0).unwrap();
    let id = m.accept_client(0).unwrap();
    assert_eq!(m.get_clients().len(), 1);

    // Within the timeout nothing happens.
    let (removed, _) = m.heartbeat_tick(2_000);
    assert!(removed.is_empty());

    // Past the timeout the silent client is evicted.
    let (removed, _) = m.heartbeat_tick(3_001);
    assert_eq!(removed, vec![id]);
    assert_eq!(m.get_clients().len(), 0);
}

#[test]
fn reaper_broadcasts_heartbeat_to_survivors() {
    let mut m = WSServerManager::default();
    m.update_config(config(8080, 10, 1, 300));
    m.start_server(0).unwrap();
    let id = m.accept_client(0).unwrap();
    let (removed, sent) = m.heartbeat_tick(1_000);
    assert!(removed.is_empty());
    assert_eq!(sent, 1);
    let queued = m.take_outbound(&id);
    assert_eq!(queued.len(), 1);
    assert_eq!(reply_field(&queued[0], "type").as_deref(), Some("HEARTBEAT"));
    assert_eq!(reply_field(&queued[0], "server").as_deref(), Some("hedge-system-ws"));
    assert!(m.take_outbound(&id).is_empty());
}

#[test]
fn capacity_rejects_only_the_excess_connection() {
    let mut m = WSServerManager::default();
    m.update_config(config(8080, 2, 30, 300));
    m.start_server(0).unwrap();

    let a = m.accept_client(1).unwrap();
    let b = m.accept_client(2).unwrap();
    assert_ne!(a, b);
    match m.accept_client(3) {
        Err(AcceptError::AtCapacity) => {}
        _ => panic!("the third connection must be refused"),
    }
    let clients = m.get_clients();
    assert_eq!(clients.len(), 2);
    let ids: Vec<&str> = clients.iter().map(|c| c.id.as_str()).collect();
    assert!(ids.contains(&a.as_str()));
    assert!(ids.contains(&b.as_str()));
}

#[test]
fn accept_requires_a_running_server() {
    let mut m = WSServerManager::default();
    match m.accept_client(0) {
        Err(AcceptError::NotRunning) => {}
        _ => panic!("a stopped server accepts nobody"),
    }
}

#[test]
fn broadcast_enqueues_in_order_and_reports_count() {
    let mut m = WSServerManager::default();
    m.start_server(0).unwrap();
    let a = m.accept_client(1).unwrap();
    let b = m.accept_client(2).unwrap();

    assert_eq!(m.broadcast_message(&"one".to_string()), 2);
    assert_eq!(m.broadcast_message(&"two".to_string()), 2);

    assert_eq!(m.take_outbound(&a), vec!["one".to_string(), "two".to_string()]);
    assert_eq!(m.take_outbound(&b), vec!["one".to_string(), "two".to_string()]);
}

#[test]
fn disconnect_unknown_client_is_an_error() {
    let mut m = WSServerManager::default();
    m.start_server(0).unwrap();
    let err = m.disconnect_client(&"nobody".to_string()).unwrap_err();
    assert_eq!(err, "Client nobody not found");
}

#[test]
fn disconnect_removes_exactly_that_client() {
    let mut m = WSServerManager::default();
    m.start_server(0).unwrap();
    let a = m.accept_client(1).unwrap();
    let b = m.accept_client(2).unwrap();
    assert!(m.disconnect_client(&a).is_ok());
    let clients = m.get_clients();
    assert_eq!(clients.len(), 1);
    assert_eq!(clients[0].id, b);
}

#[test]
fn config_change_shows_only_after_restart() {
    let mut m = WSServerManager::default();
    m.apply_start_params(9005, None, None);
    m.start_server(0).unwrap();
    assert_eq!(m.get_status(1).port, 9005);

    m.update_config(config(9010, 10, 30, 300));
    assert_eq!(m.get_status(2).port, 9005);

    m.stop_server().unwrap();
    m.start_server(3).unwrap();
    assert_eq!(m.get_status(4).port, 9010);
}

#[test]
fn latency_drives_quality_classes() {
    let mut m = WSServerManager::default();
    m.start_server(0).unwrap();
    let id = m.accept_client(0).unwrap();

    assert_eq!(
        m.get_client_connection_quality(&id).unwrap().connection_quality,
        "UNKNOWN"
    );
    m.record_reply_latency(&id, 30);
    assert_eq!(
        m.get_client_connection_quality(&id).unwrap().connection_quality,
        "EXCELLENT"
    );
    m.record_reply_latency(&id, 75);
    assert_eq!(m.get_client_connection_quality(&id).unwrap().connection_quality, "GOOD");
    m.record_reply_latency(&id, 100);
    assert_eq!(m.get_client_connection_quality(&id).unwrap().connection_quality, "POOR");
    assert_eq!(m.get_client_connection_quality(&id).unwrap().latency_ms, Some(100));
    assert!(m.get_client_connection_quality(&"nobody".to_string()).is_none());
}

#[test]
fn performance_metrics_aggregate_the_run() {
    let mut m = WSServerManager::default();
    m.start_server(0).unwrap();
    let a = m.accept_client(1).unwrap();
    let _b = m.accept_client(2).unwrap();
    m.record_reply_latency(&a, 40);

    m.handle_frame(&a, WsFrame::Text("{\"type\":\"HEARTBEAT\"}".to_string()), 100);
    m.handle_frame(&a, WsFrame::Text("bad".to_string()), 110);

    let pm = m.get_performance_metrics(10_000);
    assert_eq!(pm.total_connections, 2);
    assert_eq!(pm.peak_connections, 2);
    assert_eq!(pm.avg_latency_ms, 40);
    assert_eq!(pm.uptime_seconds, 10);
    assert_eq!(pm.messages_per_second, 0);
    assert_eq!(pm.error_rate, 50);
}

#[test]
fn performance_tick_reports_crossed_thresholds() {
    let mut m = WSServerManager::default();
    m.start_server(0).unwrap();
    let id = m.accept_client(0).unwrap();
    m.record_reply_latency(&id, 500);
    m.handle_frame(&id, WsFrame::Text("bad".to_string()), 100);

    let warnings = m.performance_tick(5_000);
    assert_eq!(
        warnings,
        vec![PerformanceWarning::HighLatency, PerformanceWarning::HighErrorRate]
    );
    assert_eq!(m.get_status(5_000).uptime_seconds, 5);

    let none = m.performance_tick(0);
    assert!(none.is_empty());
}

#[test]
fn optimize_reports_what_needs_tuning() {
    let mut m = WSServerManager::default();
    assert_eq!(m.optimize_performance(0), "WebSocket performance is optimal");

    m.start_server(0).unwrap();
    let id = m.accept_client(0).unwrap();
    m.record_reply_latency(&id, 500);
    m.handle_frame(&id, WsFrame::Text("bad".to_string()), 100);
    assert_eq!(
        m.optimize_performance(5_000),
        "Optimization suggestions: Consider reducing message size or frequency; \
         Check network stability and message format validation"
    );
}

#[test]
fn detailed_stats_compose_the_whole_picture() {
    let mut m = WSServerManager::default();
    m.start_server(0).unwrap();
    let id = m.accept_client(0).unwrap();
    m.record_reply_latency(&id, 10);

    let stats = m.get_detailed_stats(2_000);
    let server = stats.get(&"server".to_string()).unwrap();
    assert!(matches!(server.get(&"is_running".to_string()), Some(JsonValue::Bool(true))));
    assert!(
        matches!(server.get(&"connected_clients".to_string()), Some(JsonValue::Num(n)) if n == "1")
    );
    let perf = stats.get(&"performance".to_string()).unwrap();
    assert!(matches!(perf.get(&"avg_latency_ms".to_string()), Some(JsonValue::Num(n)) if n == "10"));
    let qualities = stats.get(&"connection_qualities".to_string()).unwrap();
    assert!(matches!(qualities.get(&id), Some(JsonValue::Str(s)) if s == "EXCELLENT"));
    let health = stats.get(&"system_health".to_string()).unwrap();
    assert!(matches!(health.get(&"memory_usage".to_string()), Some(JsonValue::Str(s)) if s == "optimal"));
    // The whole document serializes to parseable JSON.
    assert!(parse_json(&stats.to_json_string()).is_some());
}

#[test]
fn client_ids_are_uuid_shaped_and_unique() {
    let mut m = WSServerManager::default();
    m.start_server(0).unwrap();
    let a = m.accept_client(1).unwrap();
    let b = m.accept_client(2).unwrap();
    assert_eq!(a.len(), 36);
    assert_eq!(b.len(), 36);
    assert_ne!(a, b);
}

#[test]
fn started_at_is_iso_utc_text() {
    let mut m = WSServerManager::default();
    m.start_server(1_700_000_000_000).unwrap();
    let started = m.get_status(1_700_000_000_000).started_at.unwrap();
    assert!(started.starts_with("2023-11-14T22:13:20"));
    assert!(started.ends_with('Z'));
}

#[test]
fn read_errors_count_against_the_server() {
    let mut m = WSServerManager::default();
    m.start_server(0).unwrap();
    let _id = m.accept_client(0).unwrap();
    m.session_read_error();
    assert_eq!(m.get_status(100).errors, 1);
}

#[test]
fn error_messages_match_their_causes() {
    let mut m = WSServerManager::default();
    m.start_server(0).unwrap();
    let id = m.accept_client(0).unwrap();

    let err = m.process_message(&id, "nope", 100).unwrap_err();
    assert_eq!(err.message(), "Invalid JSON");
    let err = m.process_message(&id, "{}", 100).unwrap_err();
    assert_eq!(err.message(), "Missing message type");
    let err = m.process_message(&id, "{\"type\":\"WAT\"}", 100).unwrap_err();
    assert_eq!(err.message(), "Unknown message type: WAT");
    let err = m.process_message(&id, "{\"type\":\"AUTH\"}", 100).unwrap_err();
    assert_eq!(err.message(), "Missing auth token");
    let err = m
        .process_message(&id, "{\"type\":\"AUTH\",\"token\":\"bad\"}", 100)
        .unwrap_err();
    assert_eq!(err.message(), "Invalid auth token");
    let err = m.process_message(&id, "{\"type\":\"INFO\"}", 100).unwrap_err();
    assert_eq!(err.message(), "Client not authenticated");
    let err = m
        .process_message(&"ghost".to_string(), "{\"type\":\"INFO\"}", 100)
        .unwrap_err();
    assert_eq!(err.message(), "Client not found");
    assert!(matches!(err, ProtocolError::ClientNotFound));
}

#[test]
fn broadcast_skips_a_full_queue_and_counts_it() {
    let mut m = WSServerManager::default();
    m.start_server(0).unwrap();
    let id = m.accept_client(0).unwrap();

    for i in 0..1024u32 {
        assert_eq!(m.broadcast_message(&format!("m{i}")), 1);
    }
    // The queue is full now: the next broadcast reaches nobody and the
    // client's error count steps.
    assert_eq!(m.broadcast_message(&"overflow".to_string()), 0);
    assert_eq!(m.get_clients()[0].error_count, 1);
    assert_eq!(m.get_clients()[0].message_buffer_size, 1024);

    let drained = m.take_outbound(&id);
    assert_eq!(drained.len(), 1024);
    assert_eq!(drained[0], "m0");
    assert_eq!(drained[1023], "m1023");
    assert_eq!(m.broadcast_message(&"after".to_string()), 1);
}
