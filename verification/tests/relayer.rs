use relayer_proxy::auth::{compute_refresh_within_s, plan_refresh, RefreshPlan, Token};
use relayer_proxy::config::{plan_endpoints, url_uses_tls, RelayerConfig};
use relayer_proxy::error::ProxyError;
use relayer_proxy::net::{
    heartbeat_event_from_configs, parse_ipv4, truncate_port, HeartbeatEvent, HostPort, Ipv4Addr,
    SocketAddr, TpuConfigs,
};
use relayer_proxy::router::{route_message, Packet, RouteAction, ServerMessage};
use relayer_proxy::session::{Session, SessionAction, SessionEvent};
use relayer_proxy::stats::RelayerStageStats;
use relayer_proxy::supervisor::{Supervisor, SupervisorDisposition};
use relayer_proxy::keys::Pubkey;

fn pk(n: u8) -> Pubkey {
    Pubkey::from_bytes(vec![n; 32]).unwrap()
}

fn test_config(trust: bool) -> RelayerConfig {
    RelayerConfig {
        auth_service_addr: "https://a".to_string(),
        backend_addr: "https://b".to_string(),
        expected_heartbeat_interval_ms: 500,
        oldest_allowed_heartbeat_ms: 1500,
        trust_packets: trust,
    }
}

fn test_event() -> HeartbeatEvent {
    HeartbeatEvent {
        tpu: SocketAddr { ip: Ipv4Addr { a: 1, b: 2, c: 3, d: 4 }, port: 5 },
        tpu_forward: SocketAddr { ip: Ipv4Addr { a: 5, b: 6, c: 7, d: 8 }, port: 9 },
    }
}

fn test_token(expires_at_s: u64) -> Token {
    Token { value: "t".to_string(), expires_at_s }
}

fn packet(bytes: &[u8]) -> Packet {
    Packet { data: bytes.to_vec() }
}

#[test]
fn clean_session_routes_batches_and_heartbeats() {
    let mut session = Session::start(test_config(false), test_event(), pk(1), test_token(100), 0);

    let (actions, out) = session.step(SessionEvent::StreamMessage {
        now_ms: 10,
        msg: ServerMessage::Heartbeat,
    });
    assert!(out.is_ok());
    assert_eq!(actions.len(), 1);
    assert!(matches!(actions[0], SessionAction::Route(RouteAction::EmitHeartbeat)));
    assert_eq!(session.heartbeat_event, test_event());
    assert_eq!(session.last_heartbeat_ms, 10);

    let (actions, out) = session.step(SessionEvent::StreamMessage {
        now_ms: 20,
        msg: ServerMessage::Batch(vec![packet(b"p1"), packet(b"p2")]),
    });
    assert!(out.is_ok());
    assert_eq!(actions.len(), 1);
    match &actions[0] {
        SessionAction::Route(RouteAction::ForwardUntrusted(ps)) => {
            assert_eq!(ps.len(), 2);
            assert_eq!(ps[0].data, b"p1".to_vec());
            assert_eq!(ps[1].data, b"p2".to_vec());
        }
        _ => panic!("expected an untrusted forward"),
    }

    let (actions, out) = session.step(SessionEvent::StreamMessage {
        now_ms: 30,
        msg: ServerMessage::Batch(vec![]),
    });
    assert!(out.is_ok());
    assert_eq!(actions.len(), 0);

    let (actions, out) = session.step(SessionEvent::StreamMessage {
        now_ms: 40,
        msg: ServerMessage::Heartbeat,
    });
    assert!(out.is_ok());
    assert_eq!(actions.len(), 1);
    assert_eq!(session.last_heartbeat_ms, 40);

    assert_eq!(session.stats.num_empty_messages, 1);
    assert_eq!(session.stats.num_packets, 2);
    assert_eq!(session.stats.num_heartbeats, 2);

    let (actions, out) = session.step(SessionEvent::MetricsTick {
        now_ms: 1000,
        current_identity: pk(1),
        current_config: test_config(false),
        new_access: None,
        new_refresh: None,
    });
    assert!(out.is_ok());
    assert_eq!(actions.len(), 1);
    assert!(matches!(actions[0], SessionAction::ReportStats(1, 2, 2)));
    assert_eq!(session.stats.num_packets, 0);
}

#[test]
fn trusted_session_uses_verified_channel() {
    let mut session = Session::start(test_config(true), test_event(), pk(1), test_token(100), 0);
    let (actions, out) = session.step(SessionEvent::StreamMessage {
        now_ms: 10,
        msg: ServerMessage::Batch(vec![packet(b"x")]),
    });
    assert!(out.is_ok());
    assert_eq!(actions.len(), 1);
    assert!(matches!(
        &actions[0],
        SessionAction::Route(RouteAction::ForwardTrusted(ps)) if ps.len() == 1
    ));
}

#[test]
fn watchdog_trips_and_session_stays_silent() {
    let mut session = Session::start(test_config(false), test_event(), pk(1), test_token(100), 0);

    let (actions, out) = session.step(SessionEvent::HeartbeatTick { now_ms: 1500 });
    assert!(out.is_ok());
    assert_eq!(actions.len(), 0);

    let (actions, out) = session.step(SessionEvent::HeartbeatTick { now_ms: 1501 });
    assert_eq!(actions.len(), 0);
    assert!(matches!(out, Err(ProxyError::HeartbeatExpired)));
    assert!(session.ended);

    // no further packets leave an ended session
    let (actions, out) = session.step(SessionEvent::StreamMessage {
        now_ms: 1502,
        msg: ServerMessage::Batch(vec![packet(b"late")]),
    });
    assert!(out.is_ok());
    assert_eq!(actions.len(), 0);
}

#[test]
fn heartbeat_rearms_watchdog() {
    let mut session = Session::start(test_config(false), test_event(), pk(1), test_token(100), 0);
    let (_, out) = session.step(SessionEvent::StreamMessage {
        now_ms: 1400,
        msg: ServerMessage::Heartbeat,
    });
    assert!(out.is_ok());
    let (_, out) = session.step(SessionEvent::HeartbeatTick { now_ms: 2800 });
    assert!(out.is_ok());
    let (_, out) = session.step(SessionEvent::HeartbeatTick { now_ms: 2901 });
    assert!(matches!(out, Err(ProxyError::HeartbeatExpired)));
}

#[test]
fn stream_end_and_failure_end_the_session() {
    let mut session = Session::start(test_config(false), test_event(), pk(1), test_token(100), 0);
    let (_, out) = session.step(SessionEvent::StreamClosed);
    assert!(matches!(out, Err(ProxyError::GrpcStreamDisconnected)));

    let mut session = Session::start(test_config(false), test_event(), pk(1), test_token(100), 0);
    let (_, out) = session.step(SessionEvent::StreamFailed("boom".to_string()));
    assert!(matches!(out, Err(ProxyError::GrpcError(m)) if m == "boom"));
}

#[test]
fn config_change_ends_session_at_metrics_tick() {
    let mut session = Session::start(test_config(false), test_event(), pk(1), test_token(100), 0);
    let (actions, out) = session.step(SessionEvent::MetricsTick {
        now_ms: 1000,
        current_identity: pk(1),
        current_config: test_config(true),
        new_access: None,
        new_refresh: None,
    });
    assert_eq!(actions.len(), 1);
    assert!(matches!(
        out,
        Err(ProxyError::AuthenticationConnectionError(m)) if m == "relayer config changed"
    ));
    assert!(session.ended);

    // a new session under the flipped config routes to the verified channel
    let mut session = Session::start(test_config(true), test_event(), pk(1), test_token(100), 0);
    let (actions, _) = session.step(SessionEvent::StreamMessage {
        now_ms: 10,
        msg: ServerMessage::Batch(vec![packet(b"x")]),
    });
    assert!(matches!(&actions[0], SessionAction::Route(RouteAction::ForwardTrusted(_))));
}

#[test]
fn identity_change_ends_session_at_metrics_tick() {
    let mut session = Session::start(test_config(false), test_event(), pk(1), test_token(100), 0);
    let (_, out) = session.step(SessionEvent::MetricsTick {
        now_ms: 1000,
        current_identity: pk(2),
        current_config: test_config(false),
        new_access: None,
        new_refresh: None,
    });
    assert!(matches!(
        out,
        Err(ProxyError::AuthenticationConnectionError(m)) if m == "validator identity changed"
    ));
}

#[test]
fn token_renewals_are_counted_and_stored() {
    let mut session = Session::start(test_config(false), test_event(), pk(1), test_token(100), 0);
    let (actions, out) = session.step(SessionEvent::MetricsTick {
        now_ms: 1000,
        current_identity: pk(1),
        current_config: test_config(false),
        new_access: Some(test_token(50)),
        new_refresh: Some(test_token(500)),
    });
    assert!(out.is_ok());
    assert_eq!(actions.len(), 4);
    assert!(matches!(actions[0], SessionAction::ReportStats(0, 0, 0)));
    assert!(matches!(actions[1], SessionAction::ReportAccessRefresh(1)));
    assert!(matches!(&actions[2], SessionAction::StoreAccessToken(t) if t.expires_at_s == 50));
    assert!(matches!(actions[3], SessionAction::ReportFullRefresh(2)));
    assert_eq!(session.num_refresh_access_token, 1);
    assert_eq!(session.num_full_refreshes, 2);
    assert_eq!(session.refresh_token.expires_at_s, 500);
}

#[test]
fn supervisor_warns_on_permission_denied_only() {
    let mut supervisor = Supervisor::new();
    let d = supervisor.on_session_error(&ProxyError::AuthenticationPermissionDenied);
    assert!(matches!(d, SupervisorDisposition::WarnOnly));
    assert_eq!(supervisor.error_count, 0);

    let d = supervisor.on_session_error(&ProxyError::HeartbeatExpired);
    assert!(matches!(d, SupervisorDisposition::ReportAndBackoff { error_count: 1 }));
    let d = supervisor.on_session_error(&ProxyError::GrpcStreamDisconnected);
    assert!(matches!(d, SupervisorDisposition::ReportAndBackoff { error_count: 2 }));
}

#[test]
fn config_validation() {
    assert!(test_config(false).validate_relayer_config());
    let mut c = test_config(false);
    c.auth_service_addr = String::new();
    assert!(!c.validate_relayer_config());
    let mut c = test_config(false);
    c.backend_addr = String::new();
    assert!(!c.validate_relayer_config());
    let mut c = test_config(false);
    c.oldest_allowed_heartbeat_ms = 0;
    assert!(!c.validate_relayer_config());
    let mut c = test_config(false);
    c.expected_heartbeat_interval_ms = 0;
    assert!(!c.validate_relayer_config());
}

#[test]
fn tls_selection_by_substring() {
    assert!(url_uses_tls("https://relayer.example"));
    assert!(!url_uses_tls("http://relayer.example"));
    assert!(url_uses_tls("grpc+https://x"));
    assert!(!url_uses_tls(""));

    let plan = plan_endpoints(&test_config(false));
    assert!(plan.auth_tls);
    assert!(plan.backend_tls);
    assert_eq!(plan.backend_tcp_keepalive_s, 60);
    assert_eq!(plan.connection_timeout_s, 10);
}

#[test]
fn ipv4_parsing_accepts_canonical_text_only() {
    let ip = parse_ipv4("1.2.3.4").unwrap();
    assert_eq!((ip.a, ip.b, ip.c, ip.d), (1, 2, 3, 4));
    let ip = parse_ipv4("255.0.10.99").unwrap();
    assert_eq!((ip.a, ip.b, ip.c, ip.d), (255, 0, 10, 99));
    let ip = parse_ipv4("0.0.0.0").unwrap();
    assert_eq!((ip.a, ip.b, ip.c, ip.d), (0, 0, 0, 0));
    let ip = parse_ipv4("255.255.255.255").unwrap();
    assert_eq!((ip.a, ip.b, ip.c, ip.d), (255, 255, 255, 255));
    assert!(parse_ipv4("256.1.1.1").is_none());
    assert!(parse_ipv4("01.2.3.4").is_none());
    assert!(parse_ipv4("1.2.3").is_none());
    assert!(parse_ipv4("1.2.3.4.5").is_none());
    assert!(parse_ipv4("1.2.3.").is_none());
    assert!(parse_ipv4("a.b.c.d").is_none());
    assert!(parse_ipv4("").is_none());
    assert!(parse_ipv4("1..2.3").is_none());
}

#[test]
fn ports_are_truncated_to_sixteen_bits() {
    assert_eq!(truncate_port(5), 5);
    assert_eq!(truncate_port(65536 + 7), 7);
    assert_eq!(truncate_port(65535), 65535);
}

#[test]
fn heartbeat_event_requires_both_sockets() {
    let r = heartbeat_event_from_configs(&TpuConfigs { tpu: None, tpu_forward: None });
    assert!(matches!(r, Err(ProxyError::MissingTpuSocket(w)) if w == "tpu"));

    let r = heartbeat_event_from_configs(&TpuConfigs {
        tpu: Some(HostPort { ip: "1.2.3.4".to_string(), port: 5 }),
        tpu_forward: None,
    });
    assert!(matches!(r, Err(ProxyError::MissingTpuSocket(w)) if w == "tpu_fwd"));

    let r = heartbeat_event_from_configs(&TpuConfigs {
        tpu: Some(HostPort { ip: "1.2.3.4".to_string(), port: 5 }),
        tpu_forward: Some(HostPort { ip: "not-an-ip".to_string(), port: 9 }),
    });
    assert!(matches!(r, Err(ProxyError::BadSocketAddress(_))));

    let ev = heartbeat_event_from_configs(&TpuConfigs {
        tpu: Some(HostPort { ip: "1.2.3.4".to_string(), port: 5 }),
        tpu_forward: Some(HostPort { ip: "5.6.7.8".to_string(), port: 65536 + 9 }),
    })
    .unwrap();
    assert_eq!(ev.tpu, SocketAddr { ip: Ipv4Addr { a: 1, b: 2, c: 3, d: 4 }, port: 5 });
    assert_eq!(ev.tpu_forward, SocketAddr { ip: Ipv4Addr { a: 5, b: 6, c: 7, d: 8 }, port: 9 });
}

#[test]
fn refresh_plan_prefers_the_refresh_token() {
    assert_eq!(plan_refresh(0, 10, 100, 1), RefreshPlan::Noop);
    assert_eq!(plan_refresh(0, 1, 100, 1), RefreshPlan::RefreshAccess);
    assert_eq!(plan_refresh(0, 10, 1, 1), RefreshPlan::FullGenerate);
    assert_eq!(plan_refresh(0, 1, 1, 1), RefreshPlan::FullGenerate);
    assert_eq!(plan_refresh(u64::MAX, 10, 100, 1), RefreshPlan::FullGenerate);
}

#[test]
fn refresh_window_is_one_and_a_half_ticks() {
    assert_eq!(compute_refresh_within_s(1), 1);
    assert_eq!(compute_refresh_within_s(2), 3);
    assert_eq!(compute_refresh_within_s(u64::MAX), u64::MAX / 2);
}

#[test]
fn router_counts_and_routes() {
    let mut stats = RelayerStageStats::default();
    let r = route_message(ServerMessage::Empty, false, &mut stats);
    assert!(r.is_none());
    let r = route_message(ServerMessage::Batch(vec![]), false, &mut stats);
    assert!(r.is_none());
    let r = route_message(ServerMessage::Batch(vec![packet(b"a")]), true, &mut stats);
    assert!(matches!(r, Some(RouteAction::ForwardTrusted(_))));
    let r = route_message(ServerMessage::Heartbeat, false, &mut stats);
    assert!(matches!(r, Some(RouteAction::EmitHeartbeat)));
    assert_eq!(stats.report(), (2, 1, 1));
}

#[test]
fn forwarded_batches_preserve_stream_order() {
    let mut session = Session::start(test_config(false), test_event(), pk(1), test_token(100), 0);
    let stream = vec![
        ServerMessage::Batch(vec![packet(b"a")]),
        ServerMessage::Empty,
        ServerMessage::Batch(vec![packet(b"b"), packet(b"c")]),
        ServerMessage::Heartbeat,
        ServerMessage::Batch(vec![]),
        ServerMessage::Batch(vec![packet(b"d")]),
    ];
    let mut forwarded: Vec<Vec<Vec<u8>>> = Vec::new();
    let mut trusted_sends = 0;
    let mut now: u64 = 1;
    for msg in stream {
        let (actions, out) = session.step(SessionEvent::StreamMessage { now_ms: now, msg });
        assert!(out.is_ok());
        for action in actions {
            match action {
                SessionAction::Route(RouteAction::ForwardUntrusted(ps)) => {
                    forwarded.push(ps.into_iter().map(|p| p.data).collect())
                }
                SessionAction::Route(RouteAction::ForwardTrusted(_)) => trusted_sends += 1,
                _ => {}
            }
        }
        now += 1;
    }
    // exactly the non-empty batches, in stream order, on one channel only
    assert_eq!(
        forwarded,
        vec![
            vec![b"a".to_vec()],
            vec![b"b".to_vec(), b"c".to_vec()],
            vec![b"d".to_vec()],
        ]
    );
    assert_eq!(trusted_sends, 0);
}

#[test]
fn refreshed_tokens_outlive_sends() {
    // a schedule where every tick applies the plan and minted tokens last
    // three seconds: the held token never expires before the next tick
    let within: u64 = 1;
    let tick: u64 = 1;
    let mut access_expiry: u64 = 2;
    let refresh_expiry: u64 = 1_000;
    for t in 0..10u64 {
        match plan_refresh(t, access_expiry, refresh_expiry, within) {
            RefreshPlan::Noop => {}
            _ => access_expiry = t + 3,
        }
        // any send up to one tick later still carries an unexpired token
        assert!(access_expiry >= t + tick);
    }
}

#[test]
fn error_labels_are_fixed() {
    assert_eq!(ProxyError::HeartbeatExpired.metric_label(), "heartbeat expired");
    assert_eq!(ProxyError::GrpcStreamDisconnected.metric_label(), "grpc stream disconnected");
    assert_eq!(
        ProxyError::MethodTimeout("relayer_get_tpu_configs".to_string()).metric_label(),
        "method timeout"
    );
}
