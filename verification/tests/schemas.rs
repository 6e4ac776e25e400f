use oh_ben_claw::http::HttpTool;
use oh_ben_claw::json::JsonValue;
use oh_ben_claw::tools::{
    AudioTranscribeTool, DeviceHealthTool, FileTool, MeshCommandTool, OtaUpdateTool, ShellTool,
    TextToSpeechTool,
};

fn required(schema: &JsonValue) -> Vec<String> {
    match schema.get("required") {
        Some(JsonValue::Array(items)) => items
            .iter()
            .filter_map(|v| v.as_str().map(|s| s.to_string()))
            .collect(),
        _ => vec![],
    }
}

fn property<'a>(schema: &'a JsonValue, name: &str) -> Option<&'a JsonValue> {
    schema.get("properties").and_then(|p| p.get(name))
}

#[test]
fn test_transcribe_schema() {
    let tool = AudioTranscribeTool::configured(None, None);
    let schema = tool.parameters_schema();
    assert!(schema.get("properties").is_some());
    assert!(property(&schema, "file_path").is_some());
}

#[test]
fn test_tts_schema() {
    let tool = TextToSpeechTool::configured(None, None);
    let schema = tool.parameters_schema();
    assert!(property(&schema, "voice").is_some());
    assert!(property(&schema, "model").is_some());
}

#[test]
fn tool_schemas_name_their_required_parameters() {
    assert_eq!(required(&HttpTool::new().parameters_schema()), vec!["url"]);
    assert_eq!(
        required(&OtaUpdateTool.parameters_schema()),
        vec!["node_name", "board_type"]
    );
    assert_eq!(required(&DeviceHealthTool.parameters_schema()), vec!["node_name"]);
    assert_eq!(
        required(&MeshCommandTool.parameters_schema()),
        vec!["node_id", "command"]
    );
    assert_eq!(required(&FileTool::new().parameters_schema()), vec!["action", "path"]);
    assert_eq!(required(&ShellTool::new().parameters_schema()), vec!["command"]);
    assert_eq!(
        required(&oh_ben_claw::skill::SkillForgeTool::default_dir(Some("/h")).parameters_schema()),
        vec!["action"]
    );
    assert_eq!(
        required(&TextToSpeechTool::configured(None, None).parameters_schema()),
        vec!["text"]
    );
}

#[test]
fn schema_defaults_and_choices_are_carried() {
    let http = HttpTool::new().parameters_schema();
    let method = property(&http, "method").unwrap();
    assert_eq!(method.get("default"), Some(&JsonValue::String("GET".to_string())));
    match method.get("enum") {
        Some(JsonValue::Array(items)) => assert_eq!(items.len(), 5),
        _ => panic!("method has no choices"),
    }
    let timeout = property(&http, "timeout_secs").unwrap();
    assert_eq!(timeout.get("maximum"), Some(&JsonValue::Number("120".to_string())));
    let headers = property(&http, "headers").unwrap();
    assert_eq!(headers.get("type"), Some(&JsonValue::String("object".to_string())));
    let tts = TextToSpeechTool::configured(None, None).parameters_schema();
    assert_eq!(
        property(&tts, "voice").and_then(|v| v.get("default")),
        Some(&JsonValue::String("nova".to_string()))
    );
    let health = DeviceHealthTool.parameters_schema();
    assert_eq!(
        property(&health, "ping").and_then(|v| v.get("default")),
        Some(&JsonValue::Bool(true))
    );
}
