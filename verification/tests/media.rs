use oh_ben_claw::http::{HttpBody, HttpOutcome, HttpTool};
use oh_ben_claw::json::JsonValue;
use oh_ben_claw::tools::{
    image_mime_type, AudioTranscribeTool, EncodedImage, MeshCommandTool, OtaRequest, OtaTarget,
    TextToSpeechTool, TranscribePlan,
};

#[test]
fn test_encode_local_image_mime_type() {
    let jpeg = EncodedImage {
        mime_type: "image/jpeg".to_string(),
        data: "abc".to_string(),
        source: "test.jpg".to_string(),
    };
    let part = jpeg.to_openai_part("auto");
    assert!(part
        .get("image_url")
        .and_then(|u| u.get("url"))
        .and_then(|u| u.as_str())
        .unwrap()
        .starts_with("data:image/jpeg;base64,"));
}

#[test]
fn test_encoded_image_anthropic_source() {
    let img = EncodedImage {
        mime_type: "image/png".to_string(),
        data: "xyz".to_string(),
        source: "test.png".to_string(),
    };
    let source = img.to_anthropic_source();
    assert_eq!(source.get("type").and_then(|v| v.as_str()), Some("base64"));
    assert_eq!(source.get("media_type").and_then(|v| v.as_str()), Some("image/png"));
    assert_eq!(source.get("data").and_then(|v| v.as_str()), Some("xyz"));
}

#[test]
fn local_images_are_typed_by_extension_and_base64_encoded() {
    assert_eq!(image_mime_type("/tmp/a.PNG"), "image/png");
    assert_eq!(image_mime_type("/tmp/a.jpeg"), "image/jpeg");
    assert_eq!(image_mime_type("/tmp/a.webp"), "image/webp");
    assert_eq!(image_mime_type("/tmp/a.gif"), "image/gif");
    assert_eq!(image_mime_type("/tmp/a.bmp"), "image/bmp");
    assert_eq!(image_mime_type("/tmp/noext"), "image/jpeg");
    assert_eq!(image_mime_type("/tmp/a.tiff"), "image/jpeg");
    let img = EncodedImage::from_file_bytes("cam/shot.png", b"hello");
    assert_eq!(img.mime_type, "image/png");
    assert_eq!(img.data, "aGVsbG8=");
    assert_eq!(img.source, "cam/shot.png");
    let part = img.to_openai_part("high");
    assert_eq!(
        part,
        JsonValue::Object(vec![
            (
                "image_url".to_string(),
                JsonValue::Object(vec![
                    ("detail".to_string(), JsonValue::String("high".to_string())),
                    ("url".to_string(), JsonValue::String("data:image/png;base64,aGVsbG8=".to_string())),
                ])
            ),
            ("type".to_string(), JsonValue::String("image_url".to_string())),
        ])
    );
}

#[test]
fn speech_requests_are_planned_or_refused() {
    let keyless = TextToSpeechTool::configured(None, None);
    let args = JsonValue::Object(vec![("text".to_string(), JsonValue::String("hi".to_string()))]);
    let refused = keyless.plan(&args, 7).unwrap_err();
    assert!(!refused.success);

    let tool = TextToSpeechTool::configured(Some("k".to_string()), Some("https://api.example/v1".to_string()));
    let missing = tool.plan(&JsonValue::Object(vec![]), 7).unwrap_err();
    assert!(missing.error.as_deref().unwrap_or("").contains("text"));
    let long = JsonValue::Object(vec![("text".to_string(), JsonValue::String("a".repeat(5000)))]);
    let too_long = tool.plan(&long, 7).unwrap_err();
    assert!(too_long.error.as_deref().unwrap_or("").contains("4096"));

    let q = tool.plan(&args, 7).unwrap();
    assert_eq!(q.url, "https://api.example/v1/audio/speech");
    assert_eq!(q.api_key, "k");
    assert_eq!(q.voice, "nova");
    assert_eq!(q.model, "tts-1");
    assert_eq!(q.output_path, "/tmp/obc_tts_7.mp3");
    assert_eq!(q.body.get("input").and_then(|v| v.as_str()), Some("hi"));
    assert_eq!(
        TextToSpeechTool::success_message(&q, 12),
        "Speech generated successfully.\nFile: /tmp/obc_tts_7.mp3\nSize: 12 bytes\nVoice: nova\nModel: tts-1"
    );
}

#[test]
fn transcriptions_are_planned_or_refused() {
    let obj = |pairs: Vec<(&str, JsonValue)>| {
        JsonValue::Object(pairs.into_iter().map(|(k, v)| (k.to_string(), v)).collect())
    };
    let missing = AudioTranscribeTool::requested_file(&obj(vec![])).unwrap_err();
    assert!(missing.error.as_deref().unwrap_or("").contains("file_path"));
    let args = obj(vec![("file_path", JsonValue::String("/data/clip.wav".to_string()))]);
    assert_eq!(AudioTranscribeTool::requested_file(&args).unwrap(), "/data/clip.wav");

    let keyless = AudioTranscribeTool::configured(None, None);
    let not_found = keyless.plan(&args, "/nonexistent/audio.mp3".to_string(), false).unwrap_err();
    assert_eq!(not_found.error.as_deref(), Some("Audio file not found: /nonexistent/audio.mp3"));
    let no_key = keyless.plan(&args, "/data/clip.wav".to_string(), true).unwrap_err();
    assert!(no_key.error.as_deref().unwrap_or("").starts_with("OPENAI_API_KEY not set"));

    let local = obj(vec![
        ("file_path", JsonValue::String("/data/clip.wav".to_string())),
        ("use_local", JsonValue::Bool(true)),
    ]);
    match keyless.plan(&local, "/data/clip.wav".to_string(), true).unwrap() {
        TranscribePlan::Local { args } => {
            assert_eq!(args[3], "/data/clip.wav");
            assert_eq!(args[5], "auto");
        }
        other => panic!("expected a local run, got {other:?}"),
    }

    let tool = AudioTranscribeTool::configured(Some("k".to_string()), None);
    let detailed = obj(vec![
        ("file_path", JsonValue::String("/data/clip.wav".to_string())),
        ("language", JsonValue::String("fr".to_string())),
        ("timestamps", JsonValue::Bool(true)),
    ]);
    assert_eq!(
        tool.plan(&detailed, "/data/clip.wav".to_string(), true).unwrap(),
        TranscribePlan::Api {
            url: "https://api.openai.com/v1/audio/transcriptions".to_string(),
            api_key: "k".to_string(),
            model: "whisper-1".to_string(),
            file_path: "/data/clip.wav".to_string(),
            file_name: "clip.wav".to_string(),
            mime_type: "audio/wav".to_string(),
            response_format: "verbose_json".to_string(),
            language: Some("fr".to_string()),
            prompt: None,
        }
    );
    match tool.plan(&args, "/data/clip.FLAC".to_string(), true).unwrap() {
        TranscribePlan::Api { mime_type, response_format, .. } => {
            assert_eq!(mime_type, "audio/mpeg");
            assert_eq!(response_format, "text");
        }
        other => panic!("expected an upload, got {other:?}"),
    }
}

#[test]
fn ota_requests_are_decoded_and_reported() {
    let obj = |pairs: Vec<(&str, JsonValue)>| {
        JsonValue::Object(pairs.into_iter().map(|(k, v)| (k.to_string(), v)).collect())
    };
    let s = |t: &str| JsonValue::String(t.to_string());
    let e = OtaRequest::from_args(&obj(vec![])).unwrap_err();
    assert_eq!(e.error.as_deref(), Some("Missing required parameter: node_name"));
    let e = OtaRequest::from_args(&obj(vec![("node_name", s("n1"))])).unwrap_err();
    assert_eq!(e.error.as_deref(), Some("Missing required parameter: board_type"));
    let e = OtaRequest::from_args(&obj(vec![("node_name", s("n1")), ("board_type", s("pic"))])).unwrap_err();
    assert_eq!(e.error.as_deref(), Some("Unsupported board type: pic"));
    let e = OtaRequest::from_args(&obj(vec![("node_name", s("n1")), ("board_type", s("esp32"))])).unwrap_err();
    assert_eq!(e.error.as_deref(), Some("firmware_url required for ESP32 OTA"));
    let q = OtaRequest::from_args(&obj(vec![
        ("node_name", s("n1")),
        ("board_type", s("arduino")),
        ("firmware_path", s("/fw.hex")),
        ("dry_run", JsonValue::Bool(true)),
    ]))
    .unwrap();
    assert_eq!(q.node_name, "n1");
    assert!(q.dry_run);
    assert_eq!(
        q.target,
        OtaTarget::Arduino { firmware_path: "/fw.hex".to_string(), serial_port: "/dev/ttyUSB0".to_string() }
    );
    assert_eq!(
        OtaRequest::esp32_report("n1", "http://fw/x.bin", 1024, "application/octet-stream", true),
        "DRY RUN: ESP32 OTA for 'n1'\nFirmware URL: http://fw/x.bin\nSize: 1024 bytes\nContent-Type: application/octet-stream\nStatus: URL is reachable, update would proceed."
    );
    let live = OtaRequest::esp32_report("n1", "http://fw/x.bin", 7, "unknown", false);
    assert!(live.contains("Command sent: {\"cmd\":\"ota_start\",\"size\":7,\"url\":\"http://fw/x.bin\"}"), "{live}");
}

#[test]
fn mesh_commands_are_checked_and_reported() {
    let obj = |pairs: Vec<(&str, JsonValue)>| {
        JsonValue::Object(pairs.into_iter().map(|(k, v)| (k.to_string(), v)).collect())
    };
    let s = |t: &str| JsonValue::String(t.to_string());
    let e = MeshCommandTool::command(&obj(vec![("node_id", s("  "))])).unwrap_err();
    assert_eq!(e.error.as_deref(), Some("mesh_command requires a non-empty 'node_id'"));
    let e = MeshCommandTool::command(&obj(vec![("node_id", s("n1"))])).unwrap_err();
    assert_eq!(e.error.as_deref(), Some("mesh_command requires a non-empty 'command'"));
    let c = MeshCommandTool::command(&obj(vec![("node_id", s(" n1 ")), ("command", s("capabilities"))])).unwrap();
    assert_eq!(c.to, "n1");
    assert_eq!(c.cmd, "capabilities");
    assert_eq!(c.id.len(), 36);
    assert_eq!(c.args, JsonValue::Object(vec![]));
    let r = MeshCommandTool::sent_report(&c);
    assert!(r.success);
    let v: serde_json::Value = serde_json::from_str(&r.output).unwrap();
    assert_eq!(v.get("to").and_then(|x| x.as_str()), Some("n1"));
    assert_eq!(v.get("sent").and_then(|x| x.as_bool()), Some(true));
    assert_eq!(MeshCommandTool.risk_class().blast, oh_ben_claw::track0::BlastRadius::High);
}

#[test]
fn http_tool_has_correct_name() {
    let tool = HttpTool::new();
    assert_eq!(tool.name(), "http");
}

#[test]
fn detects_caller_set_authorization_case_insensitively() {
    let obj = |pairs: Vec<(&str, JsonValue)>| {
        JsonValue::Object(pairs.into_iter().map(|(k, v)| (k.to_string(), v)).collect())
    };
    assert!(HttpTool::caller_set_authorization(&obj(vec![(
        "headers",
        obj(vec![("AuThOrIzAtIoN", JsonValue::String("Bearer x".to_string()))])
    )])));
    assert!(!HttpTool::caller_set_authorization(&obj(vec![(
        "headers",
        obj(vec![("X-Other", JsonValue::String("y".to_string()))])
    )])));
    assert!(!HttpTool::caller_set_authorization(&obj(vec![])));
}

#[test]
fn http_calls_are_planned_gated_and_reported() {
    let obj = |pairs: Vec<(&str, JsonValue)>| {
        JsonValue::Object(pairs.into_iter().map(|(k, v)| (k.to_string(), v)).collect())
    };
    let s = |t: &str| JsonValue::String(t.to_string());
    let call = obj(vec![
        ("url", s("https://api.allowed.example/x")),
        ("method", s("post")),
        ("headers", obj(vec![("X-A", s("1")), ("X-N", JsonValue::Number("2".to_string()))])),
        ("body", obj(vec![("k", s("v"))])),
        ("timeout_secs", JsonValue::Number("500".to_string())),
    ]);
    assert_eq!(HttpTool::requested_url(&call), Some("https://api.allowed.example/x".to_string()));
    assert_eq!(HttpTool::requested_url(&obj(vec![])), None);
    let url = "https://api.allowed.example/x".to_string();
    match HttpTool::plan(&call, url.clone(), Ok(None), None) {
        HttpOutcome::Send(p) => {
            assert_eq!(p.method, "POST");
            assert_eq!(p.headers, vec![("X-A".to_string(), "1".to_string())]);
            assert_eq!(p.bearer, None);
            assert_eq!(p.timeout_secs, 120);
            assert_eq!(p.body, Some(HttpBody::Json(obj(vec![("k", s("v"))]))));
        }
        other => panic!("expected a request, got {other:?}"),
    }
    match HttpTool::plan(&call, url.clone(), Err("host not allowlisted".to_string()), None) {
        HttpOutcome::Refuse(r) => assert_eq!(r.error.as_deref(), Some("conscience: host not allowlisted")),
        other => panic!("expected a refusal, got {other:?}"),
    }
    match HttpTool::plan(&call, url.clone(), Ok(Some("API_KEY".to_string())), None) {
        HttpOutcome::Refuse(r) => assert!(r.error.unwrap_or_default().contains("credential 'API_KEY'")),
        other => panic!("expected fail-closed, got {other:?}"),
    }
    match HttpTool::plan(&call, url.clone(), Ok(Some("API_KEY".to_string())), Some("sekret".to_string())) {
        HttpOutcome::Send(p) => assert_eq!(p.bearer, Some("sekret".to_string())),
        other => panic!("expected a request, got {other:?}"),
    }
    let authed = obj(vec![("url", s("u")), ("headers", obj(vec![("authorization", s("Bearer mine"))]))]);
    match HttpTool::plan(&authed, "u".to_string(), Ok(Some("API_KEY".to_string())), None) {
        HttpOutcome::Send(p) => {
            assert_eq!(p.bearer, None, "the caller's header is respected");
            assert_eq!(p.method, "GET");
            assert_eq!(p.timeout_secs, 30);
        }
        other => panic!("expected a request, got {other:?}"),
    }
    match HttpTool::plan(&obj(vec![("method", s("TRACE"))]), "u".to_string(), Ok(None), None) {
        HttpOutcome::Refuse(r) => assert_eq!(r.error.as_deref(), Some("Unsupported HTTP method: TRACE")),
        other => panic!("expected a refusal, got {other:?}"),
    }
    let ok = HttpTool::response_result(200, Some("OK".to_string()), "hi".to_string());
    assert!(ok.success);
    assert_eq!(ok.output, "HTTP 200 OK\nhi");
    let nf = HttpTool::response_result(404, Some("Not Found".to_string()), "".to_string());
    assert!(!nf.success);
    assert_eq!(nf.output, "HTTP 404 Not Found\n");
    assert_eq!(nf.error.as_deref(), Some("HTTP error: 404 Not Found"));
    let odd = HttpTool::response_result(599, None, "x".to_string());
    assert_eq!(odd.error.as_deref(), Some("HTTP error: 599 <unknown status code>"));
}

#[test]
fn the_host_of_a_url_is_its_hostname() {
    assert_eq!(HttpTool::host_of("https://api.example.com:8443/v1?q=1"), "api.example.com");
    assert_eq!(HttpTool::host_of("not a url"), "");
}
