use oh_ben_claw::browser::{
    all_browser_tools, BrowserClickTool, BrowserCloseTabTool, BrowserNavigateTool,
    BrowserNewTabTool, BrowserProfile, BrowserScrollTool, BrowserSession, BrowserSnapshotTool,
    BrowserTypeTool,
};
use oh_ben_claw::json::JsonValue;

fn obj(pairs: Vec<(&str, JsonValue)>) -> JsonValue {
    JsonValue::Object(pairs.into_iter().map(|(k, v)| (k.to_string(), v)).collect())
}

fn text(s: &str) -> JsonValue {
    JsonValue::String(s.to_string())
}

fn make_session() -> BrowserSession {
    BrowserSession::with_cdp_url("http://localhost:19222".to_string())
}

fn required_names(schema: &JsonValue) -> Vec<String> {
    match schema.get("required") {
        Some(JsonValue::Array(items)) => items
            .iter()
            .filter_map(|v| v.as_str().map(|s| s.to_string()))
            .collect(),
        _ => panic!("schema has no required array"),
    }
}

fn error_of(r: &oh_ben_claw::tools::ToolResult) -> String {
    r.error.clone().unwrap_or_default()
}

// ── BrowserSession ───────────────────────────────────────────────────────────

#[test]
fn session_default_state() {
    let s = BrowserSession::new();
    assert_eq!(s.cdp_url, "http://localhost:9222");
    assert_eq!(s.profile, BrowserProfile::Headless);
    assert!(s.current_url().is_none());
    assert!(s.current_title().is_none());
    assert_eq!(s.open_tab_count(), 0);
}

#[test]
fn session_with_cdp_url() {
    let s = BrowserSession::with_cdp_url("http://192.168.1.100:9222".to_string());
    assert_eq!(s.cdp_url, "http://192.168.1.100:9222");
}

#[test]
fn session_with_profile() {
    let s = BrowserSession::new().with_profile(BrowserProfile::User);
    assert_eq!(s.profile, BrowserProfile::User);
}

#[test]
fn session_state_open_tab_count_starts_zero() {
    let s = BrowserSession::new();
    assert_eq!(s.open_tab_count(), 0);
}

#[test]
fn session_endpoints_are_under_the_cdp_url() {
    let s = make_session().with_timeout(5000);
    assert_eq!(s.timeout_ms, 5000);
    assert_eq!(s.list_targets_endpoint(), "http://localhost:19222/json/list");
    assert_eq!(s.new_target_endpoint(None), "http://localhost:19222/json/new");
    assert_eq!(
        s.new_target_endpoint(Some("https://a.example/x?q=1")),
        "http://localhost:19222/json/new?https://a.example/x%3Fq%3D1"
    );
    assert_eq!(s.close_target_endpoint("T1"), "http://localhost:19222/json/close/T1");
    assert_eq!(s.activate_endpoint("T1"), "http://localhost:19222/json/activate/T1");
}

#[test]
fn a_navigation_adopts_a_tab_and_records_the_page() {
    let mut s = make_session();
    assert_eq!(
        s.adopt_target(&obj(vec![])),
        Err("CDP new target returned no id".to_string())
    );
    assert_eq!(s.open_tab_count(), 0);
    assert_eq!(s.adopt_target(&obj(vec![("id", text("T1"))])), Ok("T1".to_string()));
    assert_eq!(s.active_target(), Some("T1".to_string()));
    let title = s.record_page("https://a.example/", "<html><title> Home </title></html>");
    assert_eq!(title, "Home");
    assert_eq!(s.current_url(), Some("https://a.example/".to_string()));
    assert_eq!(s.current_title(), Some("Home".to_string()));
    let untitled = s.record_page("https://b.example/", "<p>no title</p>");
    assert_eq!(untitled, "https://b.example/");
    assert_eq!(s.snapshot_url(), Ok("https://b.example/".to_string()));
}

#[test]
fn closing_a_tab_activates_the_newest_remaining_one() {
    let mut s = make_session();
    s.open_tab("A".to_string());
    s.open_tab("B".to_string());
    s.open_tab("C".to_string());
    s.record_page("https://a.example/", "");
    s.forget_tab("C");
    assert_eq!(s.open_tab_count(), 2);
    assert_eq!(s.active_target(), Some("B".to_string()));
    assert!(s.current_url().is_none());
    assert!(s.current_title().is_none());
    s.forget_tab("A");
    assert_eq!(s.active_target(), Some("B".to_string()));
    s.forget_tab("B");
    assert_eq!(s.active_target(), None);
    assert_eq!(s.open_tab_count(), 0);
}

// ── Tool names and schemas ───────────────────────────────────────────────────

#[test]
fn all_browser_tools_returns_seven_tools() {
    let (session, tools) = all_browser_tools(None);
    assert_eq!(session.cdp_url, "http://localhost:9222");
    assert_eq!(tools.len(), 7);
    let names: Vec<_> = tools.iter().map(|t| t.name()).collect();
    assert!(names.contains(&"browser_navigate"));
    assert!(names.contains(&"browser_snapshot"));
    assert!(names.contains(&"browser_click"));
    assert!(names.contains(&"browser_type"));
    assert!(names.contains(&"browser_scroll"));
    assert!(names.contains(&"browser_new_tab"));
    assert!(names.contains(&"browser_close_tab"));
    let (custom, _) = all_browser_tools(Some("http://10.0.0.2:9222"));
    assert_eq!(custom.cdp_url, "http://10.0.0.2:9222");
}

#[test]
fn navigate_tool_schema_requires_url() {
    let tool = BrowserNavigateTool::new();
    let schema = tool.parameters_schema();
    assert!(required_names(&schema).iter().any(|v| v == "url"));
}

#[test]
fn click_tool_schema_requires_selector() {
    let tool = BrowserClickTool::new();
    let schema = tool.parameters_schema();
    assert!(required_names(&schema).iter().any(|v| v == "selector"));
}

#[test]
fn type_tool_schema_requires_text() {
    let tool = BrowserTypeTool::new();
    let schema = tool.parameters_schema();
    assert!(required_names(&schema).iter().any(|v| v == "text"));
}

#[test]
fn optional_only_schemas_have_no_required_member() {
    assert!(BrowserSnapshotTool::new().parameters_schema().get("required").is_none());
    assert!(BrowserScrollTool::new().parameters_schema().get("required").is_none());
    assert!(BrowserNewTabTool::new().parameters_schema().get("required").is_none());
    let close = BrowserCloseTabTool::new().parameters_schema();
    assert_eq!(close.get("properties"), Some(&JsonValue::Object(vec![])));
    assert_eq!(close.get("type"), Some(&text("object")));
    let snapshot = BrowserSnapshotTool::new().parameters_schema();
    let max_chars = snapshot.get("properties").and_then(|p| p.get("max_chars")).unwrap();
    assert_eq!(max_chars.get("default"), Some(&JsonValue::Number("4000".to_string())));
    assert_eq!(max_chars.get("maximum"), Some(&JsonValue::Number("8000".to_string())));
}

// ── Execute paths ────────────────────────────────────────────────────────────

#[test]
fn navigate_rejects_non_http_urls() {
    let result = BrowserNavigateTool::request(&obj(vec![("url", text("ftp://example.com"))])).unwrap_err();
    assert!(!result.success);
    assert!(error_of(&result).contains("http"));
}

#[test]
fn navigate_missing_url_returns_error() {
    let result = BrowserNavigateTool::request(&obj(vec![])).unwrap_err();
    assert!(!result.success);
    assert!(error_of(&result).contains("url"));
}

#[test]
fn navigate_waits_at_most_ten_seconds_and_reports_the_title() {
    let (url, wait) = BrowserNavigateTool::request(&obj(vec![
        ("url", text("https://example.com")),
        ("wait_ms", JsonValue::Number("60000".to_string())),
    ]))
    .unwrap();
    assert_eq!(url, "https://example.com");
    assert_eq!(wait, 10_000);
    let ok = BrowserNavigateTool::report("https://example.com", Ok("Example".to_string()));
    assert_eq!(ok.output, "Navigated to https://example.com\nPage title: Example");
    let failed = BrowserNavigateTool::report("https://example.com", Err("timeout".to_string()));
    assert_eq!(error_of(&failed), "Navigation failed for https://example.com: timeout");
}

#[test]
fn snapshot_no_page_loaded_returns_error() {
    let s = make_session();
    let outcome = s.snapshot_url();
    let result = BrowserSnapshotTool::report(&s, outcome, 4000);
    assert!(!result.success);
    assert!(error_of(&result).contains("browser_navigate"));
}

#[test]
fn snapshot_strips_and_cuts_the_page() {
    let mut s = make_session();
    s.record_page("https://a.example/", "<title>T</title>");
    assert_eq!(BrowserSnapshotTool::max_chars(&obj(vec![])), 4000);
    assert_eq!(
        BrowserSnapshotTool::max_chars(&obj(vec![("max_chars", JsonValue::Number("5".to_string()))])),
        100
    );
    let long = format!("<p>{}</p>", "x".repeat(300));
    let result = BrowserSnapshotTool::report(&s, Ok(long), 100);
    assert!(result.success);
    assert_eq!(
        result.output,
        format!("URL: https://a.example/\nTitle: T\n\n{}", "x".repeat(100))
    );
}

#[test]
fn click_no_page_loaded_returns_error() {
    let s = make_session();
    let (selector, _) = BrowserClickTool::request(&obj(vec![("selector", text("button"))])).unwrap();
    let result = BrowserClickTool::outcome(&s, &selector);
    assert!(!result.success);
}

#[test]
fn click_missing_selector_returns_error() {
    let result = BrowserClickTool::request(&obj(vec![])).unwrap_err();
    assert!(!result.success);
    assert!(error_of(&result).contains("selector"));
}

#[test]
fn click_reports_the_element_and_page() {
    let mut s = make_session();
    s.record_page("https://a.example/", "");
    let (selector, delay) = BrowserClickTool::request(&obj(vec![
        ("selector", text("button#go")),
        ("delay_ms", JsonValue::Number("9000".to_string())),
    ]))
    .unwrap();
    assert_eq!(delay, 2000);
    let result = BrowserClickTool::outcome(&s, &selector);
    assert_eq!(result.output, "Clicked element 'button#go' on https://a.example/");
}

#[test]
fn type_no_page_loaded_returns_error() {
    let s = make_session();
    let result = BrowserTypeTool::execute(&s, &obj(vec![("text", text("hello"))]));
    assert!(!result.success);
}

#[test]
fn type_missing_text_returns_error() {
    let s = make_session();
    let result = BrowserTypeTool::execute(&s, &obj(vec![]));
    assert!(!result.success);
    assert!(error_of(&result).contains("text"));
}

#[test]
fn type_reports_target_and_submit() {
    let mut s = make_session();
    s.record_page("https://a.example/", "");
    let plain = BrowserTypeTool::execute(&s, &obj(vec![("text", text("hi"))]));
    assert_eq!(plain.output, "Typed 'hi' into focused element on https://a.example/");
    let submitted = BrowserTypeTool::execute(
        &s,
        &obj(vec![
            ("text", text("hi")),
            ("selector", text("#q")),
            ("submit", JsonValue::Bool(true)),
        ]),
    );
    assert_eq!(submitted.output, "Typed 'hi' + Enter into #q on https://a.example/");
}

#[test]
fn scroll_no_page_loaded_returns_error() {
    let s = make_session();
    let result = BrowserScrollTool::execute(&s, &obj(vec![("direction", text("down"))]));
    assert!(!result.success);
}

#[test]
fn scroll_reports_direction_amount_or_element() {
    let mut s = make_session();
    s.record_page("https://a.example/", "");
    let default = BrowserScrollTool::execute(&s, &obj(vec![]));
    assert_eq!(default.output, "Scrolled down by 500px on https://a.example/");
    let up = BrowserScrollTool::execute(
        &s,
        &obj(vec![("direction", text("up")), ("amount_px", JsonValue::Number("0".to_string()))]),
    );
    assert_eq!(up.output, "Scrolled up by 1px on https://a.example/");
    let to = BrowserScrollTool::execute(&s, &obj(vec![("selector", text("#footer"))]));
    assert_eq!(to.output, "Scrolled to element '#footer' on https://a.example/");
}

#[test]
fn new_tab_becomes_active() {
    let mut s = make_session();
    let url = BrowserNewTabTool::requested_url(&obj(vec![("url", text("https://a.example/"))]));
    let result = BrowserNewTabTool::complete(&mut s, url.as_deref(), Ok(obj(vec![("id", text("T9"))])));
    assert_eq!(result.output, "Opened new tab (id=T9) and navigated to https://a.example/");
    assert_eq!(s.active_target(), Some("T9".to_string()));
    let anonymous = BrowserNewTabTool::complete(&mut s, None, Ok(obj(vec![])));
    assert_eq!(anonymous.output, "Opened new tab (id=unknown)");
    assert_eq!(s.open_tab_count(), 2);
    let failed = BrowserNewTabTool::complete(&mut s, None, Err("refused".to_string()));
    assert_eq!(error_of(&failed), "Failed to open new tab: refused");
    assert_eq!(s.open_tab_count(), 2);
}

#[test]
fn close_tab_no_active_tab_returns_error() {
    let s = make_session();
    let result = BrowserCloseTabTool::target(&s).unwrap_err();
    assert!(!result.success);
    assert!(error_of(&result).contains("No active tab"));
}

#[test]
fn close_tab_forgets_the_tab() {
    let mut s = make_session();
    s.open_tab("A".to_string());
    s.open_tab("B".to_string());
    let target = BrowserCloseTabTool::target(&s).unwrap();
    assert_eq!(target, "B");
    let failed = BrowserCloseTabTool::complete(&mut s, &target, Err("gone".to_string()));
    assert_eq!(error_of(&failed), "Failed to close tab: gone");
    assert_eq!(s.open_tab_count(), 2);
    let closed = BrowserCloseTabTool::complete(&mut s, &target, Ok(()));
    assert_eq!(closed.output, "Closed tab B");
    assert_eq!(s.active_target(), Some("A".to_string()));
    assert_eq!(s.open_tab_count(), 1);
}
