use oh_ben_claw::browser::{extract_title, strip_html, url_encode, BrowserProfile};
use oh_ben_claw::evolve::sanitize_proposal;
use oh_ben_claw::gateway::parse_gateway_line;
use oh_ben_claw::install_policy::host_of;
use oh_ben_claw::spine::{
    topic_announce, topic_broadcast, topic_heartbeat, topic_tool_call, topic_tool_result,
    P2pConfig, SpineConfig,
};
use oh_ben_claw::synthesis::{slugify, verify, Outcome, VerificationCheck};
use oh_ben_claw::tools::{
    AerialStatusTool, AudioTranscribeTool, DeviceHealthTool, GnssFixTool, OtaUpdateTool,
    SitePlanTool, TextToSpeechTool, TtsSpeechSink,
};
use oh_ben_claw::tunnel::{TunnelBackend, TunnelStatus};

#[test]
fn sanitize_proposal_rules() {
    let old = "old description";
    assert_eq!(
        sanitize_proposal("```text\nNew description.\n```", old).as_deref(),
        Some("New description.")
    );
    assert_eq!(sanitize_proposal("\"Quoted.\"", old).as_deref(), Some("Quoted."));
    assert!(sanitize_proposal("", old).is_none());
    assert!(sanitize_proposal(old, old).is_none(), "unchanged rejected");
    assert!(sanitize_proposal(&"x".repeat(400), old).is_none(), "too long rejected");
}

#[test]
fn url_host_extraction() {
    assert_eq!(
        host_of("https://evil.example.com/p.sh"),
        Some("evil.example.com".into())
    );
    assert_eq!(host_of("http://h.io:8080/x"), Some("h.io".into()));
    assert_eq!(host_of("not a url"), None);
}

#[test]
fn slugify_makes_safe_names() {
    assert_eq!(slugify("Run the morning routine!"), "run_the_morning_routine");
    assert_eq!(slugify("  turn ON — fan  "), "turn_on_fan");
    assert_eq!(slugify("???"), "skill");
}

#[test]
fn verify_sensor_and_command() {
    let sensor = VerificationCheck::SensorAssertion {
        tool: "sensor_read".to_string(),
        contains: "21.5".to_string(),
    };
    assert!(verify(&sensor, Outcome::Success, "temp=21.5C", 0));
    assert!(!verify(&sensor, Outcome::Success, "temp=30C", 0));
    let cmd = VerificationCheck::TestCommand {
        cmd: "pytest".to_string(),
        expect_exit: 0,
    };
    assert!(verify(&cmd, Outcome::Success, "", 0));
    assert!(!verify(&cmd, Outcome::Success, "", 1));
}

const REFLEX_LINE: &str = "SPINE ◄ src=28 seq=30 rssi=-42 dBm : {\"type\":\"reflex\",\"node_id\":\"obc-esp32-s3-001\",\"rule\":\"safe-link-offline\"}";

#[test]
fn parses_a_received_frame() {
    let f = parse_gateway_line(REFLEX_LINE).expect("a ◄ line parses");
    assert_eq!(f.src, 0x28);
    assert_eq!(f.seq, 30);
    assert_eq!(f.rssi_dbm, -42);
    assert!(f.payload.starts_with("{\"type\":\"reflex\""));
}

#[test]
fn tolerates_an_esp_log_prefix() {
    let line = "I (34567) heltec_lora_linktest: SPINE ◄ src=A2 seq=7 rssi=-91 dBm : {\"type\":\"gw_keepalive\",\"node_id\":\"gw-A2\"}";
    let f = parse_gateway_line(line).expect("prefix is tolerated");
    assert_eq!(f.src, 0xA2);
    assert_eq!(f.seq, 7);
    assert_eq!(f.rssi_dbm, -91);
}

#[test]
fn ignores_tx_relay_keepalive_and_boot_lines() {
    assert!(parse_gateway_line("SPINE ► (uart) seq=5 (34 B) {\"type\":\"link_state\"}").is_none());
    assert!(parse_gateway_line("SPINE ⇒ relay src=28 seq=30 ttl=1").is_none());
    assert!(parse_gateway_line("SPINE ► (keepalive) seq=3").is_none());
    assert!(parse_gateway_line("SPINE ◄ malformed frame (5 B)").is_none());
    assert!(parse_gateway_line("Gateway A2 — UART1 ⇄ LoRa.").is_none());
}

#[test]
fn topic_formats_are_correct() {
    assert_eq!(topic_announce("node-1"), "obc/nodes/node-1/announce");
    assert_eq!(topic_heartbeat("node-1"), "obc/nodes/node-1/heartbeat");
    assert_eq!(
        topic_tool_call("node-1", "camera_capture"),
        "obc/tools/node-1/call/camera_capture"
    );
    assert_eq!(
        topic_tool_result("node-1", "call-abc"),
        "obc/tools/node-1/result/call-abc"
    );
    assert_eq!(topic_broadcast(), "obc/broadcast/command");
}

#[test]
fn spine_config_defaults_are_sensible() {
    let config = SpineConfig::default();
    assert_eq!(config.kind, "mqtt");
    assert_eq!(config.host, "localhost");
    assert_eq!(config.port, 1883);
    assert!(!config.tls);
    assert_eq!(config.tool_timeout_secs, 30);
}

#[test]
fn default_p2p_config_has_sensible_values() {
    let config = P2pConfig {
        node_id: "test-node".to_string(),
        ..P2pConfig::default()
    };
    assert_eq!(config.tcp_port, 44445);
    assert_eq!(config.discovery_port, 44444);
    assert_eq!(config.peer_timeout_secs, 60);
    assert_eq!(config.tool_timeout_secs, 30);
    assert_eq!(config.announce_interval_secs, 10);
}

#[test]
fn aerial_status_is_safe() {
    assert!(!AerialStatusTool::new().risk_class().physical);
}

#[test]
fn test_transcribe_tool_name() {
    let tool = AudioTranscribeTool::configured(None, None);
    assert_eq!(tool.name(), "audio_transcribe");
}

#[test]
fn test_tts_tool_name() {
    let tool = TextToSpeechTool::configured(None, None);
    assert_eq!(tool.name(), "text_to_speech");
}

#[test]
fn tts_sink_out_path_is_stable() {
    let sink = TtsSpeechSink::new(TextToSpeechTool::configured(None, None), "/tmp/obc/".to_string());
    assert_eq!(sink.out_path(42), "/tmp/obc/obc_tts_42.mp3"); // trailing slash trimmed
    assert_eq!(
        TtsSpeechSink::new(TextToSpeechTool::configured(None, None), "/var/audio".to_string())
            .out_path(7),
        "/var/audio/obc_tts_7.mp3"
    );
}

#[test]
fn extract_title_finds_title() {
    let html = "<html><head><title>Hello World</title></head><body></body></html>";
    assert_eq!(extract_title(html), Some("Hello World".to_string()));
}

#[test]
fn extract_title_handles_whitespace() {
    let html = "<html><head><title>  Spaced Title  </title></head></html>";
    assert_eq!(extract_title(html), Some("Spaced Title".to_string()));
}

#[test]
fn extract_title_returns_none_when_absent() {
    let html = "<html><body>no title here</body></html>";
    assert_eq!(extract_title(html), None);
}

#[test]
fn strip_html_removes_tags() {
    let html = "<p>Hello <b>World</b>!</p>";
    let text = strip_html(html);
    assert!(text.contains("Hello"));
    assert!(text.contains("World"));
    assert!(!text.contains("<p>"));
    assert!(!text.contains("<b>"));
}

#[test]
fn strip_html_removes_script_content() {
    let html = "<p>Text</p><script>alert('xss')</script><p>More</p>";
    let text = strip_html(html);
    assert!(text.contains("Text"));
    assert!(!text.contains("alert"));
    assert!(text.contains("More"));
}

#[test]
fn strip_html_content_after_closing_script_is_visible() {
    let html = "<script>var x = 1;</script><p>After script</p>";
    let text = strip_html(html);
    assert!(!text.contains("var x"), "script content should be stripped");
    assert!(text.contains("After script"), "text after </script> should be visible");
}

#[test]
fn strip_html_removes_style_content() {
    let html = "<style>.btn { color: red; }</style><p>Visible</p>";
    let text = strip_html(html);
    assert!(!text.contains(".btn"));
    assert!(text.contains("Visible"));
}

#[test]
fn strip_html_content_after_closing_style_is_visible() {
    let html = "<style>body { margin: 0; }</style><p>After style</p>";
    let text = strip_html(html);
    assert!(!text.contains("margin"), "style content should be stripped");
    assert!(text.contains("After style"), "text after </style> should be visible");
}

#[test]
fn url_encode_passes_safe_chars() {
    let s = url_encode("https://example.com/path");
    assert!(s.contains("https://example.com/path"));
}

#[test]
fn url_encode_encodes_question_mark() {
    let s = url_encode("https://example.com/search?q=1");
    assert!(!s.contains('?'), "url_encode should encode '?'");
    assert!(s.contains("%3F"));
}

#[test]
fn url_encode_encodes_space() {
    let s = url_encode("hello world");
    assert!(!s.contains(' '));
    assert!(s.contains("%20"));
}

#[test]
fn browser_profile_default_is_headless() {
    assert_eq!(BrowserProfile::default(), BrowserProfile::Headless);
}

#[test]
fn gnss_fix_is_safe() {
    assert!(!GnssFixTool::new().risk_class().physical);
}

#[test]
fn test_ota_tool_name() {
    let tool = OtaUpdateTool;
    assert_eq!(tool.name(), "ota_update");
}

#[test]
fn test_device_health_tool_name() {
    let tool = DeviceHealthTool;
    assert_eq!(tool.name(), "device_health");
}

#[test]
fn plan_site_is_safe() {
    assert!(!SitePlanTool::new().risk_class().physical);
}

#[test]
fn tunnel_status_display() {
    assert_eq!(TunnelStatus::Stopped.to_string(), "stopped");
    assert_eq!(TunnelStatus::Starting.to_string(), "starting");
    assert_eq!(
        TunnelStatus::Running {
            url: "https://abc.trycloudflare.com".to_string()
        }
        .to_string(),
        "running at https://abc.trycloudflare.com"
    );
    assert_eq!(
        TunnelStatus::Error {
            message: "no binary".to_string()
        }
        .to_string(),
        "error: no binary"
    );
}

#[test]
fn tunnel_backend_display() {
    assert_eq!(TunnelBackend::Cloudflare.to_string(), "cloudflare");
    assert_eq!(TunnelBackend::Tailscale.to_string(), "tailscale");
}
