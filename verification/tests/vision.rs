use oh_ben_claw::json::JsonValue;
use oh_ben_claw::tools::EncodedImage;
use oh_ben_claw::vision::{
    AudioTranscriptionTool, ChatReply, StructuredOutputTool, TranscriptionReply, VisionInput,
    VisionTool,
};

fn obj(pairs: Vec<(&str, JsonValue)>) -> JsonValue {
    JsonValue::Object(pairs.into_iter().map(|(k, v)| (k.to_string(), v)).collect())
}

fn text(s: &str) -> JsonValue {
    JsonValue::String(s.to_string())
}

fn is_object(v: Option<&JsonValue>) -> bool {
    matches!(v, Some(JsonValue::Object(_)))
}

fn reply_with_content(content: &str) -> JsonValue {
    obj(vec![(
        "choices",
        JsonValue::Array(vec![obj(vec![("message", obj(vec![("content", text(content))]))])]),
    )])
}

#[test]
fn test_vision_tool_schema() {
    let tool = VisionTool::new("test_key".to_string());
    let schema = tool.parameters_schema();
    assert_eq!(schema.get("type"), Some(&text("object")));
    assert!(is_object(schema.get("properties").and_then(|p| p.get("source"))));
    match schema.get("required") {
        Some(JsonValue::Array(items)) => assert!(items.contains(&text("source"))),
        _ => panic!("no required array"),
    }
}

#[test]
fn test_audio_tool_schema() {
    let tool = AudioTranscriptionTool::new("test_key".to_string());
    let schema = tool.parameters_schema();
    assert_eq!(tool.name(), "audio_transcribe");
    assert!(is_object(schema.get("properties").and_then(|p| p.get("path"))));
}

#[test]
fn test_structured_output_tool_schema() {
    let tool = StructuredOutputTool::new("test_key".to_string());
    assert_eq!(tool.name(), "structured_output");
    let schema = tool.parameters_schema();
    assert!(is_object(schema.get("properties").and_then(|p| p.get("schema"))));
}

#[test]
fn vision_defaults_and_overrides() {
    let tool = VisionTool::new("k".to_string());
    assert_eq!(tool.model, "gpt-5.4");
    assert_eq!(tool.base_url, "https://api.openai.com/v1/chat/completions");
    let tool = tool
        .with_model("gpt-vision".to_string())
        .with_base_url("http://localhost:8080/v1/chat/completions".to_string());
    assert_eq!(tool.model, "gpt-vision");
    assert_eq!(tool.base_url, "http://localhost:8080/v1/chat/completions");
    assert_eq!(tool.api_key, "k");
}

#[test]
fn vision_plans_local_and_remote_sources() {
    let local = VisionTool::plan(VisionInput {
        source: "/tmp/cat.png".to_string(),
        prompt: None,
        detail: None,
    });
    assert!(!local.remote);
    assert_eq!(local.prompt, "Describe this image in detail.");
    assert_eq!(local.detail, "auto");
    let remote = VisionTool::plan(VisionInput {
        source: "https://img.example/cat.png".to_string(),
        prompt: Some("How many cats?".to_string()),
        detail: Some("high".to_string()),
    });
    assert!(remote.remote);
    assert_eq!(remote.prompt, "How many cats?");
    assert_eq!(remote.detail, "high");
    assert_eq!(
        VisionTool::image_failure(true, "404").error.as_deref(),
        Some("Failed to fetch image: 404")
    );
    assert_eq!(
        VisionTool::image_failure(false, "no such file").error.as_deref(),
        Some("Failed to read image: no such file")
    );
    assert_eq!(
        VisionTool::invalid_arguments("missing field `source`").error.as_deref(),
        Some("Invalid arguments: missing field `source`")
    );
}

#[test]
fn vision_request_carries_prompt_and_image() {
    let tool = VisionTool::new("k".to_string());
    let img = EncodedImage {
        mime_type: "image/png".to_string(),
        data: "QUJD".to_string(),
        source: "x.png".to_string(),
    };
    let body = tool.request_body("What is this?", &img, "low");
    assert_eq!(body.get("model"), Some(&text("gpt-5.4")));
    assert_eq!(body.get("max_tokens"), Some(&JsonValue::Number("1024".to_string())));
    let message = body.get("messages").and_then(|m| m.at(0)).unwrap();
    assert_eq!(message.get("role"), Some(&text("user")));
    let content = message.get("content").unwrap();
    assert_eq!(content.at(0).and_then(|p| p.get("text")), Some(&text("What is this?")));
    assert_eq!(content.at(1), Some(&img.to_openai_part("low")));
}

#[test]
fn vision_replies_are_read() {
    let ok = VisionTool::reply_result(ChatReply::Body(reply_with_content("A cat.")));
    assert!(ok.success);
    assert_eq!(ok.output, "A cat.");
    let empty = VisionTool::reply_result(ChatReply::Body(obj(vec![])));
    assert_eq!(empty.output, "No description returned");
    let refused = VisionTool::reply_result(ChatReply::Body(obj(vec![(
        "error",
        obj(vec![("message", text("bad key"))]),
    )])));
    assert_eq!(refused.error.as_deref(), Some("API error: {\"message\":\"bad key\"}"));
    let unsent = VisionTool::reply_result(ChatReply::SendFailed("dns".to_string()));
    assert_eq!(unsent.error.as_deref(), Some("API request failed: dns"));
    let garbled = VisionTool::reply_result(ChatReply::Unparsable("eof".to_string()));
    assert_eq!(garbled.error.as_deref(), Some("Failed to parse response: eof"));
}

#[test]
fn remote_images_are_typed_by_content_type() {
    let img = EncodedImage::from_remote("https://x/y", Some("image/png; charset=binary"), b"ABC");
    assert_eq!(img.mime_type, "image/png");
    assert_eq!(img.data, "QUJD");
    assert_eq!(img.source, "https://x/y");
    let plain = EncodedImage::from_remote("https://x/y", None, b"");
    assert_eq!(plain.mime_type, "image/jpeg");
    assert_eq!(plain.data, "");
}

#[test]
fn transcription_requests_and_forms() {
    let tool = AudioTranscriptionTool::new("k".to_string());
    let missing = AudioTranscriptionTool::request(&obj(vec![])).unwrap_err();
    assert_eq!(missing.error.as_deref(), Some("Missing required argument: path"));
    let (path, language, timestamps) = AudioTranscriptionTool::request(&obj(vec![
        ("path", text("/rec/Clip.FLAC")),
        ("language", text("fr")),
        ("timestamps", JsonValue::Bool(true)),
    ]))
    .unwrap();
    assert_eq!(path, "/rec/Clip.FLAC");
    let form = tool.form(&path, language, timestamps);
    assert_eq!(form.file_name, "Clip.FLAC");
    assert_eq!(form.mime_type, "audio/flac");
    assert_eq!(form.model, "whisper-1");
    assert_eq!(form.response_format, "verbose_json");
    assert_eq!(form.language.as_deref(), Some("fr"));
    let plain = tool.form("/rec/memo", None, false);
    assert_eq!(plain.mime_type, "audio/mpeg");
    assert_eq!(plain.response_format, "text");
    assert_eq!(tool.form("/rec/a.m4a", None, false).mime_type, "audio/mp4");
    assert_eq!(AudioTranscriptionTool::endpoint(), "https://api.openai.com/v1/audio/transcriptions");
    assert_eq!(
        AudioTranscriptionTool::read_failure("denied").error.as_deref(),
        Some("Failed to read audio file: denied")
    );
}

#[test]
fn transcription_replies_are_read() {
    let text_reply = AudioTranscriptionTool::reply_result(TranscriptionReply::Text(Ok("  hello world \n".to_string())));
    assert_eq!(text_reply.output, "hello world");
    let rejected = AudioTranscriptionTool::reply_result(TranscriptionReply::Rejected {
        code: 401,
        reason: Some("Unauthorized".to_string()),
        body: "no key".to_string(),
    });
    assert_eq!(rejected.error.as_deref(), Some("Whisper API error 401 Unauthorized: no key"));
    let json = AudioTranscriptionTool::reply_result(TranscriptionReply::Json(Ok(obj(vec![("text", text("hi"))]))));
    assert_eq!(json.output, "{\n  \"text\": \"hi\"\n}");
    let bad = AudioTranscriptionTool::reply_result(TranscriptionReply::Json(Err("eof".to_string())));
    assert_eq!(bad.error.as_deref(), Some("Failed to parse response: eof"));
    let unread = AudioTranscriptionTool::reply_result(TranscriptionReply::Text(Err("reset".to_string())));
    assert_eq!(unread.error.as_deref(), Some("Failed to read response: reset"));
}

#[test]
fn structured_requests_follow_the_schema() {
    let tool = StructuredOutputTool::new("k".to_string());
    let no_text = tool.request_body(&obj(vec![])).unwrap_err();
    assert_eq!(no_text.error.as_deref(), Some("Missing required argument: text"));
    let no_schema = tool.request_body(&obj(vec![("text", text("Ann is 30"))])).unwrap_err();
    assert_eq!(no_schema.error.as_deref(), Some("Missing required argument: schema"));
    let schema = obj(vec![("type", text("object"))]);
    let body = tool
        .request_body(&obj(vec![("text", text("Ann is 30")), ("schema", obj(vec![("type", text("object"))]))]))
        .unwrap();
    assert_eq!(body.get("model"), Some(&text("gpt-5.4")));
    let messages = body.get("messages").unwrap();
    assert_eq!(
        messages.at(0).and_then(|m| m.get("content")),
        Some(&text("Extract the requested information from the text."))
    );
    assert_eq!(messages.at(1).and_then(|m| m.get("content")), Some(&text("Ann is 30")));
    let js = body.get("response_format").and_then(|r| r.get("json_schema")).unwrap();
    assert_eq!(js.get("name"), Some(&text("extraction_result")));
    assert_eq!(js.get("schema"), Some(&schema));
    assert_eq!(js.get("strict"), Some(&JsonValue::Bool(true)));
}

#[test]
fn structured_replies_are_reformatted_when_json() {
    let json = StructuredOutputTool::reply_result(ChatReply::Body(reply_with_content("{\"age\":30}")));
    assert_eq!(json.output, "{\n  \"age\": 30\n}");
    let prose = StructuredOutputTool::reply_result(ChatReply::Body(reply_with_content("not json")));
    assert_eq!(prose.output, "not json");
    let empty = StructuredOutputTool::reply_result(ChatReply::Body(obj(vec![])));
    assert_eq!(empty.output, "{}");
}
