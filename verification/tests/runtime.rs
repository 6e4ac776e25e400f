use oh_ben_claw::gateway::{node_message_summary, parse_gateway_line, NodeCommand};
use oh_ben_claw::json::JsonValue;
use oh_ben_claw::mesh::{
    applied_fact, decide, mesh_node_of, rssi_series, snapshot, status_document, MeshDecision, MeshHealth,
    MeshNodeFacts, MeshNodeView, MeshStatusInput, MeshSupervisorConfig,
};
use oh_ben_claw::rollout::{demote, promote, tracker_in, RolloutError};
use oh_ben_claw::spine::{assignment_topic, frame_header, frame_len, heartbeat_node_id, peer_dial_host, FrameError};
use oh_ben_claw::track0::RolloutStage;
use oh_ben_claw::p2p::{
    incoming_kind, tool_result_of, unrouted_call_result, IncomingKind, NodeDirectory, ToolCallRequest,
};
use oh_ben_claw::spine::ToolCallResult;
use oh_ben_claw::spine::{escalation_payload, escalation_topic, gpio_write_args, movement_topic};

#[test]
fn record_accumulates_and_resets_on_stage_change() {
    let mut tracker = tracker_in("/tmp/obc-rollout");
    assert_eq!(tracker.path(), "/tmp/obc-rollout/skill_rollout.json");
    tracker.record_clean("s", RolloutStage::Simulate);
    tracker.record_clean("s", RolloutStage::Simulate);
    assert_eq!(tracker.record("s").unwrap().clean_runs, 2);
    tracker.record_clean("s", RolloutStage::Supervised);
    let rec = tracker.record("s").unwrap();
    assert_eq!(rec.stage, RolloutStage::Supervised);
    assert_eq!(rec.clean_runs, 1);
}

#[test]
fn promote_requires_clean_record_and_no_failures() {
    let mut tracker = tracker_in("/tmp/obc-promote/");
    assert!(promote(&tracker, "learned_unlock", RolloutStage::Simulate, 3).is_err());
    tracker.record_clean("learned_unlock", RolloutStage::Simulate);
    tracker.record_clean("learned_unlock", RolloutStage::Simulate);
    let err = promote(&tracker, "learned_unlock", RolloutStage::Simulate, 3).unwrap_err();
    assert!(err.message().contains("2/3"), "{}", err.message());
    tracker.record_clean("learned_unlock", RolloutStage::Simulate);
    let next = promote(&tracker, "learned_unlock", RolloutStage::Simulate, 3).unwrap();
    assert_eq!(next, RolloutStage::Supervised);
    tracker.reset("learned_unlock", next);
    assert_eq!(tracker.record("learned_unlock").unwrap().clean_runs, 0);
    for _ in 0..3 {
        tracker.record_clean("learned_unlock", RolloutStage::Supervised);
    }
    tracker.record_failure("learned_unlock", RolloutStage::Supervised);
    let err = promote(&tracker, "learned_unlock", RolloutStage::Supervised, 3).unwrap_err();
    assert!(err.message().contains("failure"), "{}", err.message());
    assert_eq!(
        promote(&tracker, "x", RolloutStage::Autonomous, 0),
        Err(RolloutError::AlreadyAutonomous { skill: "x".to_string() })
    );
}

#[test]
fn demote_is_unconditional_and_bounded() {
    assert_eq!(demote("learned_x", RolloutStage::Autonomous), Ok(RolloutStage::Supervised));
    assert_eq!(demote("learned_x", RolloutStage::Supervised), Ok(RolloutStage::Simulate));
    let err = demote("learned_x", RolloutStage::Simulate).unwrap_err();
    assert_eq!(err.message(), "'learned_x' is already at the lowest stage (simulate)");
}

#[test]
fn all_lists_each_skill_once() {
    let mut tracker = tracker_in("");
    assert_eq!(tracker.path(), "skill_rollout.json");
    tracker.record_clean("a", RolloutStage::Simulate);
    tracker.record_failure("b", RolloutStage::Simulate);
    tracker.record_clean("a", RolloutStage::Simulate);
    let all = tracker.all();
    assert_eq!(all.len(), 2);
    assert_eq!(all.iter().find(|(n, _)| n == "a").unwrap().1.clean_runs, 2);
    assert_eq!(all.iter().find(|(n, _)| n == "b").unwrap().1.failures, 1);
}

fn cfg(recover: Option<&str>) -> MeshSupervisorConfig {
    MeshSupervisorConfig {
        enabled: true,
        stale_ms: 5_000,
        tick_ms: 5_000,
        recover: recover.map(str::to_string),
        min_recovery_interval_ms: 30_000,
        escalate_after_ms: 0,
    }
}

fn view(node: &str, last_seen_ms: u64) -> MeshNodeView {
    MeshNodeView {
        node: node.to_string(),
        last_seen_ms,
        last_cmd_ok: None,
        prev_health: None,
        health_since_ms: None,
        last_recovery_ms: None,
        escalated: false,
    }
}

#[test]
fn stale_node_goes_offline_and_is_recovered_once() {
    let d = decide(&[view("n", 1_000)], 11_000, &cfg(Some("capabilities")));
    assert!(d.iter().any(|x| matches!(x, MeshDecision::Health { status: MeshHealth::Offline, .. })));
    let rec = d.iter().find_map(|x| match x {
        MeshDecision::Recover { cmd, .. } => Some(cmd),
        _ => None,
    });
    let rec = rec.expect("offline node is recovered");
    assert_eq!(rec.cmd, "capabilities");
    assert_eq!(rec.to, "n");
    assert_eq!(rec.id, "sup-n-11000");

    let mut v = view("n", 1_000);
    v.last_recovery_ms = Some(10_500);
    let d = decide(&[v], 11_000, &cfg(Some("capabilities")));
    assert!(!d.iter().any(|x| matches!(x, MeshDecision::Recover { .. })), "within the cooldown");
}

#[test]
fn health_is_written_only_on_change_and_degrades_on_failed_command() {
    let mut v = view("n", 10_500);
    v.prev_health = Some(MeshHealth::Online);
    assert!(decide(&[v], 11_000, &cfg(None)).is_empty());
    let mut v = view("n", 10_500);
    v.last_cmd_ok = Some(false);
    let d = decide(&[v], 11_000, &cfg(None));
    assert!(matches!(&d[0], MeshDecision::Health { status: MeshHealth::Degraded, .. }));
}

#[test]
fn escalation_stops_pinging_and_clears_on_return() {
    let mut c = cfg(Some("capabilities"));
    c.escalate_after_ms = 20_000;
    let mut v = view("n", 1_000);
    v.prev_health = Some(MeshHealth::Offline);
    v.health_since_ms = Some(1_000);
    let d = decide(&[v.clone()], 30_000, &c);
    assert!(d.iter().any(|x| matches!(x, MeshDecision::Escalate { .. })));
    assert!(!d.iter().any(|x| matches!(x, MeshDecision::Recover { .. })));
    v.escalated = true;
    assert!(decide(&[v], 30_000, &c).is_empty());
    let mut back = view("n", 29_500);
    back.prev_health = Some(MeshHealth::Offline);
    back.escalated = true;
    let d = decide(&[back], 30_000, &c);
    assert!(d.iter().any(|x| matches!(x, MeshDecision::ClearEscalation { .. })));
}

#[test]
fn mesh_entities_and_rssi_history() {
    assert_eq!(mesh_node_of("mesh.node-x"), Some("node-x".to_string()));
    assert_eq!(mesh_node_of("mesh.node-x.health"), None);
    assert_eq!(mesh_node_of("mesh.escalated_count"), None);
    assert_eq!(mesh_node_of("power.mode"), None);
    let fact = |r: &str| JsonValue::Object(vec![("rssi_dbm".to_string(), JsonValue::Number(r.to_string()))]);
    let history = vec![fact("-50"), JsonValue::Null, fact("-40"), fact("1.5"), fact("-30")];
    assert_eq!(rssi_series(&history, 2), vec![-40, -30]);
    assert_eq!(rssi_series(&history, 10), vec![-50, -40, -30]);
}

#[test]
fn gateway_strips_trailing_ansi_and_summarises() {
    let line = "\u{1b}[0;32mI (93772) heltec_lora_linktest: SPINE ◄ src=D8 seq=11 rssi=-10 dBm : {\"node_id\":\"gw-D8\",\"type\":\"gw_keepalive\",\"seq\":11}\u{1b}[0m";
    let f = parse_gateway_line(line).expect("ANSI-wrapped line parses");
    assert_eq!(f.src, 0xD8);
    assert_eq!(f.payload, "{\"node_id\":\"gw-D8\",\"type\":\"gw_keepalive\",\"seq\":11}");
    let payload = JsonValue::Object(vec![("type".to_string(), JsonValue::String("status".to_string()))]);
    let ing = node_message_summary(&f, &payload);
    assert_eq!(ing.node_id, "mesh-d8");
    assert_eq!(ing.msg_type, "status");
    assert_eq!(ing.rssi_dbm, -10);
}

#[test]
fn frames_and_topics() {
    let h = frame_header(300);
    assert_eq!(h, [0, 0, 1, 44]);
    assert_eq!(frame_len(h), Ok(300));
    assert_eq!(
        frame_len([0, 0x10, 0, 1]),
        Err(FrameError::TooLarge { len: 1_048_577 })
    );
    assert_eq!(FrameError::TooLarge { len: 7 }.message(), "P2P frame too large: 7 bytes");
    assert_eq!(assignment_topic("rover-7"), "obc/fleet/assign/rover-7");
    assert_eq!(heartbeat_node_id("obc/fleet/heartbeat/rover-7"), Some("rover-7".to_string()));
    assert_eq!(heartbeat_node_id("obc/fleet/heartbeat/"), None);
    assert_eq!(peer_dial_host("0.0.0.0", "10.0.0.5"), "10.0.0.5");
    assert_eq!(peer_dial_host("10.0.0.9", "10.0.0.5"), "10.0.0.9");
}

#[test]
fn a_fresh_node_is_online_and_needs_no_recovery() {
    let d = decide(&[view("n", 10_000)], 11_000, &cfg(Some("capabilities")));
    assert_eq!(d.len(), 1);
    assert!(matches!(&d[0], MeshDecision::Health { status: MeshHealth::Online, .. }));
}

#[test]
fn a_stale_node_goes_offline_and_is_recovered() {
    let d = decide(&[view("n", 1_000)], 11_000, &cfg(Some("capabilities")));
    assert!(d.iter().any(|x| matches!(x, MeshDecision::Health { status: MeshHealth::Offline, .. })));
    let rec = d.iter().find_map(|x| match x {
        MeshDecision::Recover { cmd, .. } => Some(cmd),
        _ => None,
    });
    let rec = rec.expect("offline node is recovered");
    assert_eq!(rec.cmd, "capabilities");
    assert_eq!(rec.to, "n");
}

#[test]
fn recovery_is_rate_limited_per_node() {
    let mut v = view("n", 1_000);
    v.last_recovery_ms = Some(10_500);
    let d = decide(&[v], 11_000, &cfg(Some("capabilities")));
    assert!(!d.iter().any(|x| matches!(x, MeshDecision::Recover { .. })), "within the cooldown");
}

#[test]
fn observe_only_when_no_recover_command_is_set() {
    let d = decide(&[view("n", 1_000)], 11_000, &cfg(None));
    assert!(d.iter().all(|x| matches!(x, MeshDecision::Health { .. })), "no recovery without a command");
}

#[test]
fn a_failed_command_marks_the_node_degraded() {
    let mut v = view("n", 10_500);
    v.last_cmd_ok = Some(false);
    let d = decide(&[v], 11_000, &cfg(None));
    assert!(matches!(&d[0], MeshDecision::Health { status: MeshHealth::Degraded, .. }));
}

#[test]
fn health_is_not_rewritten_when_unchanged() {
    let mut v = view("n", 10_500);
    v.prev_health = Some(MeshHealth::Online);
    let d = decide(&[v], 11_000, &cfg(None));
    assert!(d.is_empty(), "online→online produces no churn");
}

fn esc_cfg() -> MeshSupervisorConfig {
    let mut c = cfg(Some("capabilities"));
    c.escalate_after_ms = 20_000;
    c
}

fn offline_view(node: &str, offline_since: u64) -> MeshNodeView {
    let mut v = view(node, offline_since);
    v.prev_health = Some(MeshHealth::Offline);
    v.health_since_ms = Some(offline_since);
    v
}

#[test]
fn a_node_offline_past_the_threshold_is_escalated_and_stops_pinging() {
    let d = decide(&[offline_view("n", 1_000)], 30_000, &esc_cfg());
    assert!(d.iter().any(|x| matches!(x, MeshDecision::Escalate { .. })), "escalates");
    assert!(!d.iter().any(|x| matches!(x, MeshDecision::Recover { .. })), "gives up pinging");
}

#[test]
fn an_escalated_node_is_not_re_escalated_nor_pinged() {
    let mut v = offline_view("n", 1_000);
    v.escalated = true;
    let d = decide(&[v], 30_000, &esc_cfg());
    assert!(d.is_empty(), "no re-escalation, no recovery, no health churn");
}

#[test]
fn recovery_continues_before_the_escalation_threshold() {
    let d = decide(&[offline_view("n", 1_000)], 10_000, &esc_cfg());
    assert!(d.iter().any(|x| matches!(x, MeshDecision::Recover { .. })));
    assert!(!d.iter().any(|x| matches!(x, MeshDecision::Escalate { .. })));
}

#[test]
fn a_returning_node_clears_its_escalation() {
    let mut v = view("n", 29_500);
    v.prev_health = Some(MeshHealth::Offline);
    v.escalated = true;
    let d = decide(&[v], 30_000, &esc_cfg());
    assert!(d.iter().any(|x| matches!(x, MeshDecision::ClearEscalation { .. })));
}

fn field<'a>(v: &'a JsonValue, key: &str) -> &'a JsonValue {
    v.get(key).unwrap_or_else(|| panic!("missing {key}"))
}

fn number(v: &JsonValue) -> String {
    match v {
        JsonValue::Number(t) => t.clone(),
        other => panic!("expected a number, got {other:?}"),
    }
}

#[test]
fn status_document_summarises_nodes_and_escalations() {
    let rollup = |pairs: Vec<(&str, JsonValue)>| {
        Some(JsonValue::Object(pairs.into_iter().map(|(k, v)| (k.to_string(), v)).collect()))
    };
    let mut n1 = view("n1", 1_000);
    n1.prev_health = Some(MeshHealth::Online);
    let mut n2 = view("n2", 1_000);
    n2.prev_health = Some(MeshHealth::Offline);
    n2.escalated = true;
    n2.last_cmd_ok = Some(false);
    let inputs = vec![
        MeshStatusInput {
            view: n1,
            rollup: rollup(vec![
                ("last_type", JsonValue::String("reflex".to_string())),
                ("rssi_dbm", JsonValue::Number("-72".to_string())),
            ]),
            rssi_history: vec![-60, -72],
        },
        MeshStatusInput {
            view: n2,
            rollup: rollup(vec![("last_type", JsonValue::String("-".to_string()))]),
            rssi_history: vec![],
        },
    ];
    let v = status_document(&inputs, vec![], 12_500);
    let summary = field(&v, "summary");
    assert_eq!(number(field(summary, "nodes")), "2");
    assert_eq!(number(field(summary, "online")), "1");
    assert_eq!(number(field(summary, "degraded")), "0");
    assert_eq!(number(field(summary, "offline")), "1");
    assert_eq!(number(field(summary, "escalated")), "1");
    let nodes = match field(&v, "nodes") {
        JsonValue::Array(items) => items,
        other => panic!("expected nodes, got {other:?}"),
    };
    assert_eq!(field(&nodes[0], "node").as_str(), Some("n1"));
    assert_eq!(field(&nodes[0], "health").as_str(), Some("online"));
    assert_eq!(field(&nodes[0], "rssi_dbm").as_i64(), Some(-72));
    assert_eq!(field(&nodes[0], "last_type").as_str(), Some("reflex"));
    assert_eq!(field(&nodes[0], "escalated").as_bool(), Some(false));
    assert_eq!(number(field(&nodes[0], "age_s")), "11");
    assert_eq!(field(&nodes[0], "last_cmd_ok"), &JsonValue::Null);
    assert_eq!(
        field(&nodes[0], "rssi_history"),
        &JsonValue::Array(vec![
            JsonValue::Number("-60".to_string()),
            JsonValue::Number("-72".to_string())
        ])
    );
    assert_eq!(field(&nodes[1], "health").as_str(), Some("offline"));
    assert_eq!(field(&nodes[1], "escalated").as_bool(), Some(true));
    assert_eq!(field(&nodes[1], "rssi_dbm"), &JsonValue::Null);
    assert_eq!(field(&nodes[1], "last_cmd_ok").as_bool(), Some(false));
    assert_eq!(field(&v, "escalations"), &JsonValue::Array(vec![]));

    let unknown = MeshStatusInput { view: view("n3", 20_000), rollup: None, rssi_history: vec![] };
    let v = status_document(&[unknown], vec![JsonValue::Null], 10_000);
    let nodes = match field(&v, "nodes") {
        JsonValue::Array(items) => items,
        other => panic!("expected nodes, got {other:?}"),
    };
    assert_eq!(field(&nodes[0], "health").as_str(), Some("unknown"));
    assert_eq!(field(&nodes[0], "last_type").as_str(), Some("-"));
    assert_eq!(number(field(&nodes[0], "age_s")), "0");
    assert_eq!(field(&v, "escalations"), &JsonValue::Array(vec![JsonValue::Null]));
}

#[test]
fn snapshot_skips_nothing_it_is_given() {
    let facts = vec![MeshNodeFacts {
        node: "n1".to_string(),
        last_seen_ms: 1_000,
        cmd_result_ok: Some(true),
        health: Some((Some("degraded".to_string()), 900)),
        recovery_ms: None,
        escalation_status: Some("cleared".to_string()),
    }];
    let views = snapshot(&facts);
    assert_eq!(views.len(), 1);
    assert_eq!(views[0].node, "n1");
    assert_eq!(views[0].prev_health, Some(MeshHealth::Degraded));
    assert_eq!(views[0].health_since_ms, Some(900));
    assert!(!views[0].escalated);
}

const REFLEX_LINE: &str = "SPINE ◄ src=28 seq=30 rssi=-42 dBm : {\"type\":\"reflex\",\"node_id\":\"obc-esp32-s3-001\",\"rule\":\"safe-link-offline\"}";

fn text(t: &str) -> JsonValue {
    JsonValue::String(t.to_string())
}

#[test]
fn a_node_message_is_recorded_with_its_envelope_and_rollup() {
    let f = parse_gateway_line(REFLEX_LINE).unwrap();
    let payload = JsonValue::Object(vec![
        ("node_id".to_string(), text("obc-esp32-s3-001")),
        ("rule".to_string(), text("safe-link-offline")),
        ("type".to_string(), text("reflex")),
        ("_mesh".to_string(), JsonValue::Null),
    ]);
    let facts = oh_ben_claw::gateway::node_message_facts(&f, &payload);
    assert_eq!(facts.ingest.node_id, "obc-esp32-s3-001");
    assert_eq!(facts.ingest.msg_type, "reflex");
    assert_eq!(facts.ingest.rssi_dbm, -42);
    assert_eq!(facts.message.0, "mesh.obc-esp32-s3-001.reflex");
    let msg = &facts.message.1;
    assert_eq!(msg.get("rule").and_then(|v| v.as_str()), Some("safe-link-offline"));
    let meta = msg.get("_mesh").unwrap();
    assert_eq!(meta.get("rssi_dbm").and_then(|v| v.as_i64()), Some(-42));
    assert_eq!(meta.get("seq").and_then(|v| v.as_i64()), Some(30));
    assert_eq!(meta.get("src").and_then(|v| v.as_str()), Some("28"));
    match msg {
        JsonValue::Object(fields) => assert_eq!(fields.iter().filter(|(k, _)| k == "_mesh").count(), 1),
        other => panic!("expected an object, got {other:?}"),
    }
    assert_eq!(facts.rollup.0, "mesh.obc-esp32-s3-001");
    let link = &facts.rollup.1;
    assert_eq!(link.get("rssi_dbm").and_then(|v| v.as_i64()), Some(-42));
    assert_eq!(link.get("last_type").and_then(|v| v.as_str()), Some("reflex"));
    assert_eq!(link.get("src").and_then(|v| v.as_str()), Some("28"));

    let line = "SPINE ◄ src=0C seq=1 rssi=-10 dBm : {\"type\":\"status\",\"v\":42}";
    let f = parse_gateway_line(line).unwrap();
    let payload = JsonValue::Object(vec![
        ("type".to_string(), text("status")),
        ("v".to_string(), JsonValue::Number("42".to_string())),
    ]);
    let facts = oh_ben_claw::gateway::node_message_facts(&f, &payload);
    assert_eq!(facts.ingest.node_id, "mesh-0c");
    assert_eq!(facts.message.0, "mesh.mesh-0c.status");
    assert_eq!(facts.rollup.1.get("src").and_then(|v| v.as_str()), Some("0C"));
}

#[test]
fn a_command_encodes_to_the_node_request_line() {
    let cmd = oh_ben_claw::gateway::NodeCommand::new(
        "obc-esp32-s3-001".to_string(),
        "req-7".to_string(),
        "gpio_write".to_string(),
        JsonValue::Object(vec![
            ("pin".to_string(), JsonValue::Number("3".to_string())),
            ("value".to_string(), JsonValue::Number("1".to_string())),
        ]),
    );
    let line = cmd.encode();
    assert!(!line.contains('\n'), "must be a single line for the mesh");
    let v: serde_json::Value = serde_json::from_str(&line).unwrap();
    assert_eq!(v.get("id").and_then(serde_json::Value::as_str), Some("req-7"));
    assert_eq!(v.get("to").and_then(serde_json::Value::as_str), Some("obc-esp32-s3-001"));
    assert_eq!(v.get("cmd").and_then(serde_json::Value::as_str), Some("gpio_write"));
    assert_eq!(v.get("args").and_then(|a| a.get("pin")).and_then(serde_json::Value::as_i64), Some(3));
}

fn announcement(id: &str) -> oh_ben_claw::p2p::NodeAnnouncement {
    oh_ben_claw::p2p::NodeAnnouncement {
        node_id: id.to_string(),
        board: "esp32".to_string(),
        firmware_version: "1.0".to_string(),
        tools: vec![oh_ben_claw::p2p::NodeToolSpec {
            name: "gpio_write".to_string(),
            description: "Write a pin".to_string(),
            parameters: JsonValue::Null,
        }],
        metadata: JsonValue::Null,
    }
}

#[test]
fn peers_are_registered_once_found_again_and_evicted_when_silent() {
    let mut reg = oh_ben_claw::p2p::PeerRegistry::new();
    assert_eq!(reg.addr_of("a"), None);
    reg.record(announcement("a"), "10.0.0.5".to_string(), 7000, 1_000);
    reg.record(announcement("b"), "10.0.0.6".to_string(), 7001, 2_000);
    assert_eq!(reg.addr_of("a"), Some(("10.0.0.5".to_string(), 7000)));
    reg.record(announcement("a"), "10.0.0.9".to_string(), 7002, 40_000);
    assert_eq!(reg.addr_of("a"), Some(("10.0.0.9".to_string(), 7002)));
    assert_eq!(reg.peers().len(), 2);
    let known = reg.known_nodes();
    assert_eq!(known.len(), 2);
    assert_eq!(known[0].0, "a");
    assert_eq!(known[0].1.tools[0].name, "gpio_write");
    reg.evict_stale(41_500, 30);
    assert_eq!(reg.addr_of("b"), None, "39.5 s of silence exceeds 30 s");
    assert_eq!(reg.addr_of("a"), Some(("10.0.0.9".to_string(), 7002)));
    reg.evict_stale(70_999, 31);
    assert!(reg.addr_of("a").is_some(), "30 whole seconds is under 31");
    reg.evict_stale(70_000, 30);
    assert!(reg.addr_of("a").is_none());
}

#[test]
fn call_results_become_tool_results() {
    let call = ToolCallRequest::new_call("sensor_read".to_string(), JsonValue::Null);
    assert_eq!(call.call_id.len(), 36);
    let r = unrouted_call_result(&call);
    assert_eq!(r.call_id, call.call_id);
    assert!(!r.ok);
    assert_eq!(
        r.error.as_deref(),
        Some("Tool 'sensor_read' is not directly handled by this P2P listener; route through the agent loop")
    );
    let ok = tool_result_of(ToolCallResult { call_id: "c".to_string(), ok: true, output: None, error: None }, "Unknown P2P error");
    assert!(ok.success);
    assert_eq!(ok.output, "");
    let bad = tool_result_of(ToolCallResult { call_id: "c".to_string(), ok: false, output: None, error: None }, "Unknown P2P error");
    assert_eq!(bad.error.as_deref(), Some("Unknown P2P error"));
}

#[test]
fn console_bytes_are_framed_into_lines() {
    let mut f = oh_ben_claw::gateway::LineFramer::new();
    let lines = f.push(b"SPINE a\r\n\nSPI");
    assert_eq!(lines, vec![b"SPINE a".to_vec()]);
    let lines = f.push(b"NE b\nrest");
    assert_eq!(lines, vec![b"SPINE b".to_vec()]);
    let mut long = vec![b'x'; 5000];
    long.push(b'\n');
    let tail = f.push(&long);
    assert_eq!(tail.len(), 1, "the runaway part is discarded, what follows is kept");
    assert_eq!(tail[0], vec![b'x'; 907]);
    assert_eq!(f.push(b"ok\n"), vec![b"ok".to_vec()]);
}

#[test]
fn spine_messages_are_routed_and_nodes_remembered() {
    assert_eq!(incoming_kind("obc/nodes/n1/announce"), IncomingKind::Announcement);
    assert_eq!(incoming_kind("obc/tools/n1/result/c1"), IncomingKind::CallResult);
    assert_eq!(incoming_kind("obc/nodes/n1/heartbeat"), IncomingKind::Other);
    let mut d = NodeDirectory::new();
    d.register(announcement("n1"));
    d.register(announcement("n2"));
    let mut again = announcement("n1");
    again.board = "rpi".to_string();
    d.register(again);
    assert_eq!(d.nodes().len(), 2);
    assert_eq!(d.get("n1").unwrap().board, "rpi");
    assert!(d.get("n3").is_none());
}

#[test]
fn reflex_actions_have_their_wire_shapes() {
    assert_eq!(escalation_topic(), "obc/escalation");
    assert_eq!(movement_topic(), "obc/movement");
    assert_eq!(
        escalation_payload("why"),
        JsonValue::Object(vec![("reason".to_string(), JsonValue::String("why".to_string()))])
    );
    assert_eq!(
        gpio_write_args(18, -1),
        JsonValue::Object(vec![
            ("pin".to_string(), JsonValue::Number("18".to_string())),
            ("value".to_string(), JsonValue::Number("-1".to_string())),
        ])
    );
}

#[test]
fn a_recovery_is_recorded_only_once_sent() {
    let cmd = NodeCommand::new(
        "n1".to_string(),
        "id-1".to_string(),
        "capabilities".to_string(),
        JsonValue::Object(vec![]),
    );
    let recover = MeshDecision::Recover { node: "n1".to_string(), cmd };
    assert!(applied_fact(&recover, 5, false).is_none());
    let (entity, _) = applied_fact(&recover, 5, true).unwrap();
    assert_eq!(entity, "mesh.n1.recovery");
    let escalate = MeshDecision::Escalate { node: "n1".to_string(), reason: "lost".to_string() };
    assert_eq!(applied_fact(&escalate, 5, false).unwrap().0, "mesh.n1.escalation");
}
