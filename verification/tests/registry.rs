use oh_ben_claw::install_policy::{InstallConsent, InstallDecision, InstallFlag, InstallPolicyConfig};
use oh_ben_claw::json::JsonValue;
use oh_ben_claw::registry::{ClawHubClient, ClawHubEntry, SkillRegistryIndex};

fn make_entry(name: &str, tags: &[&str], verified: bool) -> ClawHubEntry {
    ClawHubEntry {
        name: name.to_string(),
        version: "1.0.0".to_string(),
        description: format!("A skill that does {name}"),
        author: "test_author".to_string(),
        downloads: 42,
        tags: tags.iter().map(|&t| t.to_string()).collect(),
        verified,
        manifest_url: format!("https://hub.example.com/skills/{name}/1.0.0/manifest"),
        sha256: None,
    }
}

#[test]
fn entry_is_verified() {
    let e = make_entry("weather", &["internet", "weather"], true);
    assert!(e.is_verified());
}

#[test]
fn entry_not_verified() {
    let e = make_entry("joke", &["fun"], false);
    assert!(!e.is_verified());
}

#[test]
fn entry_has_tag_case_insensitive() {
    let e = make_entry("news", &["RSS", "internet"], true);
    assert!(e.has_tag("rss"));
    assert!(e.has_tag("RSS"));
    assert!(e.has_tag("Internet"));
    assert!(!e.has_tag("email"));
}

#[test]
fn index_starts_empty() {
    let idx = SkillRegistryIndex::new("https://hub.example.com".to_string());
    assert!(idx.is_empty());
    assert_eq!(idx.len(), 0);
    assert!(idx.refreshed_at.is_none());
}

#[test]
fn index_search_by_name() {
    let mut idx = SkillRegistryIndex::new("https://hub.example.com".to_string());
    idx.entries.push(make_entry("check_weather", &[], true));
    idx.entries.push(make_entry("send_email", &[], false));

    let results = idx.search("weather");
    assert_eq!(results.len(), 1);
    assert_eq!(results[0].name, "check_weather");
}

#[test]
fn index_search_by_description() {
    let mut idx = SkillRegistryIndex::new("https://hub.example.com".to_string());
    idx.entries.push(make_entry("news_feed", &[], true));
    let results = idx.search("does news_feed");
    assert_eq!(results.len(), 1);
}

#[test]
fn index_search_by_tag() {
    let mut idx = SkillRegistryIndex::new("https://hub.example.com".to_string());
    idx.entries.push(make_entry("translate", &["language", "api"], true));
    idx.entries.push(make_entry("joke", &["fun"], false));

    let results = idx.search("language");
    assert_eq!(results.len(), 1);
    assert_eq!(results[0].name, "translate");
}

#[test]
fn index_search_no_match_returns_empty() {
    let mut idx = SkillRegistryIndex::new("https://hub.example.com".to_string());
    idx.entries.push(make_entry("translate", &[], true));
    let results = idx.search("nonexistent_xyz");
    assert!(results.is_empty());
}

#[test]
fn index_find_by_name() {
    let mut idx = SkillRegistryIndex::new("https://hub.example.com".to_string());
    idx.entries.push(make_entry("gpio_blink", &[], true));
    idx.entries.push(make_entry("sensor_read", &[], false));

    assert!(idx.find("gpio_blink").is_some());
    assert!(idx.find("sensor_read").is_some());
    assert!(idx.find("missing").is_none());
}

#[test]
fn index_len_reflects_entries() {
    let mut idx = SkillRegistryIndex::new("https://hub.example.com".to_string());
    idx.entries.push(make_entry("a", &[], true));
    idx.entries.push(make_entry("b", &[], true));
    idx.entries.push(make_entry("c", &[], false));
    assert_eq!(idx.len(), 3);
    assert!(!idx.is_empty());
}

fn client() -> ClawHubClient {
    ClawHubClient::new("https://hub.example.com".to_string(), "/tmp/audit.jsonl".to_string())
}

#[test]
fn client_index_starts_empty_and_searches_after_refresh() {
    let mut c = client();
    let idx = c.local_index();
    assert!(idx.is_empty());
    assert_eq!(idx.registry_url, "https://hub.example.com");
    assert!(c.needs_refresh());
    assert_eq!(c.audit_log().path(), "/tmp/audit.jsonl");
    c.refresh_with(
        vec![make_entry("weather_check", &["weather"], true), make_entry("joke_gen", &["fun"], false)],
        1_700_000_000,
    );
    assert!(!c.needs_refresh());
    let results = c.search("WEATHER");
    assert_eq!(results.len(), 1);
    assert_eq!(results[0].name, "weather_check");
    assert!(c.search("zzznomatch").is_empty());
    assert_eq!(c.local_index().refreshed_at, Some(1_700_000_000));
}

#[test]
fn registry_host_drops_scheme_port_and_path() {
    assert_eq!(client().registry_host(), "hub.example.com");
    let c = ClawHubClient::new("http://hub.local:8080/api".to_string(), "a".to_string());
    assert_eq!(c.registry_host(), "hub.local");
    let cfg = InstallPolicyConfig { audit_log_path: Some("/var/log/x.jsonl".to_string()), ..Default::default() };
    let c = ClawHubClient::with_policy("hub.example.com".to_string(), cfg, "unused".to_string());
    assert_eq!(c.registry_host(), "hub.example.com");
    assert_eq!(c.audit_log().path(), "/var/log/x.jsonl");
}

fn manifest() -> JsonValue {
    JsonValue::Object(vec![
        ("description".to_string(), JsonValue::String("Reports the weather.".to_string())),
        ("name".to_string(), JsonValue::String("weather".to_string())),
    ])
}

#[test]
fn installs_are_reviewed_and_audited() {
    let c = client();
    let entry = make_entry("weather", &[], false);
    let (audit, outcome) = c.install_review(&entry, b"{}", &manifest(), InstallConsent::Withheld);
    assert_eq!(audit.skill, "weather");
    assert_eq!(audit.version, "1.0.0");
    assert_eq!(audit.registry_url, "https://hub.example.com");
    assert_eq!(audit.flags, vec![InstallFlag::Unverified]);
    assert_eq!(audit.timestamp.len(), 20);
    assert_eq!(
        audit.manifest_sha256,
        "44136fa355b3678a1146ad16f7e8649e94fb4fc21fe77e8310c060f61caaff8a"
    );
    assert!(matches!(audit.decision, InstallDecision::ApprovalRequired { .. }));
    assert_eq!(
        outcome,
        Err("Install of 'weather' v1.0.0 requires operator approval. Inspection: catalogue entry is not registry-verified. Retry with InstallConsent::Approved after review.".to_string())
    );

    let (audit, outcome) = c.install_review(&entry, b"{}", &manifest(), InstallConsent::Approved);
    assert_eq!(audit.decision, InstallDecision::Allow);
    assert_eq!(outcome, Ok("weather.skill.json".to_string()));

    let verified = make_entry("weather", &[], true);
    let (_, outcome) = c.install_review(&verified, b"{}", &manifest(), InstallConsent::Withheld);
    assert_eq!(
        outcome,
        Err("Install of 'weather' v1.0.0 requires operator approval. Inspection: no flags raised. Retry with InstallConsent::Approved after review.".to_string())
    );

    let mut pinned = make_entry("weather", &[], true);
    pinned.sha256 = Some("deadbeef".to_string());
    let (audit, outcome) = c.install_review(&pinned, b"{}", &manifest(), InstallConsent::Approved);
    assert!(matches!(audit.decision, InstallDecision::Deny { .. }));
    assert!(outcome.unwrap_err().starts_with("Install of 'weather' denied: checksum mismatch"));
}
