use oh_ben_claw::evolve::{is_learned, DescriptionEvolver};
use oh_ben_claw::improve::{
    improvement_candidates, pattern_matches, route_candidate, safe_to_replay, signature_groups,
    CandidateRoute,
};
use oh_ben_claw::json::JsonValue;
use oh_ben_claw::skill::{is_skill_manifest, SkillForge, SkillKind, SkillManifest, SkillTool};
use oh_ben_claw::synthesis::{
    approve, chain_signature, synthesize, tag_physical, touches_actuator, verify, Episode,
    EpisodeStep, Outcome, VerificationCheck,
};
use oh_ben_claw::parameterize::parameterize;
use oh_ben_claw::rollout::{demote_skill, promote_skill, tracker_in};
use oh_ben_claw::improve::{begin_pass, improve_step, PassAction, PassEvent, SkillImprover};
use oh_ben_claw::evolve::{begin_evolve, evolve_step, EvolveAction, EvolveEvent};
use oh_ben_claw::skill::SkillForgeTool;
use oh_ben_claw::tools::{FileAction, FileRequestError, FileTool};
use oh_ben_claw::track0::{BlastRadius, RiskClass, RolloutStage};
use oh_ben_claw::tunnel::{
    funnel_url_in_line, StartStep, TunnelBackend, TunnelConfig, TunnelManager, TunnelStatus,
};

fn args(pairs: Vec<(&str, JsonValue)>) -> JsonValue {
    JsonValue::Object(pairs.into_iter().map(|(k, v)| (k.to_string(), v)).collect())
}

fn step(tool: &str, ok: bool) -> EpisodeStep {
    EpisodeStep {
        tool: tool.to_string(),
        args: args(vec![("pin", JsonValue::Number("18".to_string())), ("value", JsonValue::Number("1".to_string()))]),
        result: "done".to_string(),
        ok,
    }
}

fn episode(objective: &str, steps: Vec<EpisodeStep>) -> Episode {
    Episode {
        id: "e1".to_string(),
        session_id: "s".to_string(),
        objective: objective.to_string(),
        steps,
        outcome: Outcome::Success,
        ts_ms: 1,
        duration_ms: None,
        tokens_est: None,
    }
}

#[test]
fn synthesizes_quarantined_delegate_from_success() {
    let ep = episode("turn on the fan", vec![step("gpio_write", true)]);
    let m = synthesize(&ep).expect("synthesized");
    assert_eq!(m.name, "learned_turn_on_the_fan");
    assert_eq!(m.description, "Learned from a successful run: turn on the fan");
    assert!(!m.enabled);
    assert_eq!(m.stage, RolloutStage::Simulate);
    assert_eq!(m.tags, vec!["learned".to_string()]);
    assert!(m.tags.contains(&"learned".to_string()));
    match &m.kind {
        SkillKind::Delegate { tool, fixed_args } => {
            assert_eq!(tool, "gpio_write");
            assert_eq!(fixed_args.get("pin").and_then(|v| v.as_i64()), Some(18));
        }
        _ => panic!("expected a Delegate skill"),
    }
    let m = approve(m);
    assert!(m.enabled);
    assert_eq!(m.stage, RolloutStage::Autonomous);
}

#[test]
fn multi_step_success_becomes_a_sequence_and_failures_give_none() {
    let ep = episode("morning", vec![step("lights", true), step("coffee", true)]);
    let m = synthesize(&ep).unwrap();
    match &m.kind {
        SkillKind::Sequence { steps } => {
            assert_eq!(steps.len(), 2);
            assert_eq!(steps[1].tool, "coffee");
        }
        other => panic!("expected a sequence, got {other:?}"),
    }
    assert_eq!(chain_signature(&ep), "lights→coffee");
    let mixed = episode("morning", vec![step("lights", false), step("coffee", true), step("radio", true)]);
    assert!(matches!(synthesize(&mixed).unwrap().kind, SkillKind::Delegate { ref tool, .. } if tool == "coffee"));
    let mut failed = episode("x", vec![step("a", true)]);
    failed.outcome = Outcome::Failure;
    assert!(synthesize(&failed).is_none());
    assert!(synthesize(&episode("x", vec![step("a", false)])).is_none());
}

#[test]
fn physical_skills_are_tagged_once_and_routed_to_rollout() {
    let ep = episode("unlock the door", vec![step("gpio_write", true)]);
    assert!(touches_actuator(&ep, &["gpio_write"]));
    assert!(!touches_actuator(&ep, &["relay"]));
    let m = tag_physical(synthesize(&ep).unwrap());
    assert!(m.enabled);
    assert_eq!(m.stage, RolloutStage::Simulate);
    let again = tag_physical(m);
    assert_eq!(again.tags, vec!["learned".to_string(), "track0:supervised".to_string()]);

    let safe = RiskClass::safe();
    assert_eq!(route_candidate(false, &ep, &["gpio_write"], &[safe], 0, 10), CandidateRoute::Supervise);
    assert_eq!(route_candidate(false, &ep, &[], &[safe], 0, 10), CandidateRoute::Verify);
    assert_eq!(route_candidate(false, &ep, &[], &[safe], 10, 10), CandidateRoute::RejectCapacity);
    assert_eq!(route_candidate(true, &ep, &[], &[safe], 0, 10), CandidateRoute::SkipExisting);
    let low = RiskClass::physical(true, BlastRadius::Low);
    assert!(!safe_to_replay(low));
    assert_eq!(route_candidate(false, &ep, &[], &[low], 0, 10), CandidateRoute::Supervise);
}

#[test]
fn rule_patterns_match_exactly_or_by_prefix() {
    assert!(pattern_matches("learned_*", "learned_fan"));
    assert!(!pattern_matches("learned_*", "other"));
    assert!(pattern_matches("learned_fan", "learned_fan"));
    assert!(!pattern_matches("learned_fan", "learned_fans"));
    assert!(is_learned("learned_fan"));
    assert!(!is_learned("fan"));
}

#[test]
fn placeholders_are_filled_from_arguments() {
    let a = args(vec![
        ("city", JsonValue::String("Paris".to_string())),
        ("days", JsonValue::Number("3".to_string())),
    ]);
    assert_eq!(
        SkillTool::substitute("https://w.example/{city}?d={days}&again={city}", &a),
        "https://w.example/Paris?d=3&again=Paris"
    );
    assert_eq!(SkillTool::substitute("no {holes}", &JsonValue::Null), "no {holes}");
}

#[test]
fn forge_paths_and_evolver_limits() {
    let forge = SkillForge::new("/skills".to_string());
    assert_eq!(forge.manifest_path("fan"), "/skills/fan.skill.json");
    assert!(is_skill_manifest("fan.skill.json"));
    assert!(!is_skill_manifest("fan.json"));
    let ev = DescriptionEvolver::new(forge, "/tmp/log.jsonl".to_string(), 0);
    assert_eq!(ev.max_per_pass(), 1);
}

#[test]
fn file_requests_are_parsed() {
    let a = args(vec![
        ("action", JsonValue::String("write".to_string())),
        ("path", JsonValue::String("/tmp/x".to_string())),
        ("content", JsonValue::String("hi".to_string())),
    ]);
    assert_eq!(
        FileTool::request(&a),
        Ok((FileAction::Write { content: "hi".to_string() }, "/tmp/x".to_string()))
    );
    let a = args(vec![("path", JsonValue::String("/tmp/x".to_string()))]);
    assert_eq!(FileTool::request(&a), Err(FileRequestError::MissingAction));
    let a = args(vec![
        ("action", JsonValue::String("chmod".to_string())),
        ("path", JsonValue::String("/tmp/x".to_string())),
    ]);
    assert_eq!(
        FileTool::request(&a),
        Err(FileRequestError::UnknownAction { action: "chmod".to_string() })
    );
}

fn tunnel_config(backend: &str) -> TunnelConfig {
    TunnelConfig {
        enabled: true,
        backend: backend.to_string(),
        local_port: 8080,
        named_tunnel: None,
        token: None,
        tailscale_funnel: false,
    }
}

fn backend_of(config: &TunnelConfig) -> Result<TunnelBackend, String> {
    TunnelManager::new(config.clone()).parse_backend()
}

#[test]
fn tunnel_backends_parse_in_any_case() {
    assert_eq!(backend_of(&tunnel_config("cloudflare")), Ok(TunnelBackend::Cloudflare));
    assert_eq!(backend_of(&tunnel_config("Cloudflared")), Ok(TunnelBackend::Cloudflare));
    assert_eq!(backend_of(&tunnel_config("TAILSCALE")), Ok(TunnelBackend::Tailscale));
    assert!(backend_of(&tunnel_config("ngrok")).is_err());
    assert_eq!(
        funnel_url_in_line("Available on the internet: https://box.tail1234.ts.net/, ok."),
        Some("https://box.tail1234.ts.net/".to_string())
    );
    assert_eq!(funnel_url_in_line("https://."), None);
}

fn weather_episode(objective: &str, city: &str, ts_ms: u64) -> Episode {
    let mut ep = episode(
        objective,
        vec![EpisodeStep {
            tool: "http_get".to_string(),
            args: args(vec![
                ("city", JsonValue::String(city.to_string())),
                ("units", JsonValue::String("metric".to_string())),
            ]),
            result: "ok".to_string(),
            ok: true,
        }],
    );
    ep.ts_ms = ts_ms;
    ep
}

#[test]
fn parameterizes_varying_arguments_of_a_shared_chain() {
    let a = weather_episode("weather in Paris today", "Paris", 1);
    let b = weather_episode("weather in Rome", "Rome", 2);
    let m = parameterize(&[&a, &b]).expect("generalized");
    assert_eq!(m.name, "learned_weather_in_rome");
    assert_eq!(
        m.description,
        "Learned from 2 successful runs like: weather in Rome (parameters: city)"
    );
    assert_eq!(m.tags, vec!["learned".to_string(), "parameterized".to_string()]);
    assert!(!m.enabled);
    assert_eq!(m.timeout_secs, 60);
    match &m.kind {
        SkillKind::Delegate { tool, fixed_args } => {
            assert_eq!(tool, "http_get");
            assert_eq!(
                fixed_args,
                &args(vec![("units", JsonValue::String("metric".to_string()))])
            );
        }
        other => panic!("expected a delegate, got {other:?}"),
    }
    let same = weather_episode("weather", "Paris", 3);
    assert!(parameterize(&[&a, &same]).is_none(), "nothing varies");
    assert!(parameterize(&[&a]).is_none(), "one run is not a group");
}

fn default_empty_schema() -> JsonValue {
    args(vec![
        ("properties", JsonValue::Object(vec![])),
        ("type", JsonValue::String("object".to_string())),
    ])
}

fn sample_shell_manifest(name: &str) -> SkillManifest {
    SkillManifest {
        name: name.to_string(),
        description: "A test skill.".to_string(),
        kind: SkillKind::Shell {
            command: "echo hello".to_string(),
        },
        parameters: default_empty_schema(),
        version: Some("1.0.0".to_string()),
        stage: RolloutStage::default(),
        tags: vec!["test".to_string()],
        enabled: true,
        timeout_secs: 5,
    }
}

#[test]
fn manifest_validate_rejects_empty_name() {
    let mut m = sample_shell_manifest("valid");
    m.name = String::new();
    assert!(m.validate().is_err());
}

#[test]
fn manifest_validate_rejects_invalid_chars() {
    let mut m = sample_shell_manifest("valid");
    m.name = "my-skill".to_string();
    assert!(m.validate().is_err());
}

#[test]
fn manifest_names_must_be_snake_case() {
    let mut m = sample_shell_manifest("valid");
    m.name = "MySkill".to_string();
    assert_eq!(
        m.validate(),
        Err("Skill name 'MySkill' contains invalid characters (use a-z, 0-9, _)".to_string())
    );
    m.name = "skill_é".to_string();
    assert!(m.validate().is_err());
    m.name = "echo_test_2".to_string();
    assert!(m.validate().is_ok());
}

#[test]
fn manifest_validate_rejects_empty_description() {
    let mut m = sample_shell_manifest("valid");
    m.description = String::new();
    assert!(m.validate().is_err());
}

#[test]
fn manifest_validate_accepts_valid() {
    let m = sample_shell_manifest("echo_test");
    assert!(m.validate().is_ok());
}

#[test]
fn skill_tool_name_matches_manifest() {
    let m = sample_shell_manifest("echo_test");
    let tool = SkillTool::new(m).unwrap();
    assert_eq!(tool.name(), "echo_test");
}

#[test]
fn substitute_fills_placeholders() {
    let template = "curl https://example.com/{city}/weather?units={units}";
    let a = args(vec![
        ("city", JsonValue::String("london".to_string())),
        ("units", JsonValue::String("metric".to_string())),
    ]);
    let result = SkillTool::substitute(template, &a);
    assert_eq!(result, "curl https://example.com/london/weather?units=metric");
}

#[test]
fn substitute_leaves_missing_placeholders() {
    let template = "echo {name}";
    let a = args(vec![]);
    let result = SkillTool::substitute(template, &a);
    assert_eq!(result, "echo {name}");
}

#[test]
fn default_skill_dir_follows_home() {
    assert_eq!(SkillForge::default_dir(Some("/home/ben")), "/home/ben/.config/oh-ben-claw/skills");
    assert_eq!(SkillForge::default_dir(Some("/root/")), "/root/.config/oh-ben-claw/skills");
    assert_eq!(SkillForge::default_dir(None), "/etc/oh-ben-claw/skills");
    assert_eq!(
        oh_ben_claw::skill::SkillForgeTool::default_dir(Some("/h")).forge.skill_dir,
        "/h/.config/oh-ben-claw/skills"
    );
}

fn num(n: i64) -> JsonValue {
    JsonValue::Number(n.to_string())
}

fn text(t: &str) -> JsonValue {
    JsonValue::String(t.to_string())
}

fn success_episode(objective: &str, tool: &str, ok: bool) -> Episode {
    episode(objective, vec![step(tool, ok)])
}

fn multi_episode(id: &str, objective: &str, steps: Vec<(&str, JsonValue)>, ts: u64) -> Episode {
    Episode {
        id: id.to_string(),
        session_id: "s".to_string(),
        objective: objective.to_string(),
        steps: steps
            .into_iter()
            .map(|(tool, args)| EpisodeStep {
                tool: tool.to_string(),
                args,
                result: "ok".to_string(),
                ok: true,
            })
            .collect(),
        outcome: Outcome::Success,
        ts_ms: ts,
        duration_ms: None,
        tokens_est: None,
    }
}

#[test]
fn does_not_synthesize_from_failure_or_no_ok_step() {
    let mut ep = success_episode("x", "gpio_write", false);
    assert!(synthesize(&ep).is_none());
    ep.steps[0].ok = true;
    ep.outcome = Outcome::Failure;
    assert!(synthesize(&ep).is_none());
}

#[test]
fn track0_interlock_detects_and_tags_physical() {
    let ep = success_episode("unlock door", "gpio_write", true);
    assert!(touches_actuator(&ep, &["gpio_write", "relay"]));
    assert!(!touches_actuator(&ep, &["camera_capture"]));
    let m = tag_physical(synthesize(&ep).unwrap());
    assert!(m.tags.contains(&"track0:supervised".to_string()));
    assert!(m.enabled, "loads for dry-runs");
    assert_eq!(m.stage, RolloutStage::Simulate, "cannot actuate until promoted");
}

#[test]
fn verify_then_approve_enables() {
    let m = synthesize(&success_episode("y", "shell", true)).unwrap();
    let check = VerificationCheck::Replay {
        expect_outcome: Outcome::Success,
    };
    assert!(verify(&check, Outcome::Success, "", 0));
    assert!(!verify(&check, Outcome::Failure, "", 0));
    let approved = approve(m);
    assert!(approved.enabled);
}

#[test]
fn synthesizes_sequence_from_multistep_success() {
    let ep = multi_episode(
        "e1",
        "morning report",
        vec![
            ("http", args(vec![("q", text("weather"))])),
            ("http", args(vec![("q", text("news"))])),
        ],
        1,
    );
    let m = synthesize(&ep).unwrap();
    assert!(!m.enabled);
    match m.kind {
        SkillKind::Sequence { steps } => {
            assert_eq!(steps.len(), 2);
            assert_eq!(steps[0].tool, "http");
            assert_eq!(steps[1].args.get("q").and_then(|v| v.as_str()), Some("news"));
        }
        other => panic!("expected Sequence, got {other:?}"),
    }
}

#[test]
fn mixed_ok_and_failed_steps_fall_back_to_single_delegate() {
    let mut ep = multi_episode(
        "e1",
        "flaky run",
        vec![("http", args(vec![("a", num(1))])), ("http", args(vec![("b", num(2))]))],
        1,
    );
    ep.steps[1].ok = false;
    match synthesize(&ep).unwrap().kind {
        SkillKind::Delegate { fixed_args, .. } => {
            assert_eq!(fixed_args.get("a").and_then(|v| v.as_i64()), Some(1))
        }
        other => panic!("expected Delegate fallback, got {other:?}"),
    }
}

#[test]
fn parameterize_extracts_varying_fields_single_step() {
    let a = multi_episode(
        "a",
        "check the weather in Oslo",
        vec![("http", args(vec![("city", text("Oslo")), ("q", text("weather"))]))],
        1,
    );
    let b = multi_episode(
        "b",
        "check the weather",
        vec![("http", args(vec![("city", text("Bergen")), ("q", text("weather"))]))],
        2,
    );
    let m = parameterize(&[&a, &b]).unwrap();
    assert_eq!(m.name, "learned_check_the_weather", "named after the shortest objective");
    assert!(!m.enabled);
    assert!(m.tags.contains(&"parameterized".to_string()));
    match &m.kind {
        SkillKind::Delegate { tool, fixed_args } => {
            assert_eq!(tool, "http");
            assert_eq!(fixed_args.get("q").and_then(|v| v.as_str()), Some("weather"), "uniform field stays fixed");
            assert!(fixed_args.get("city").is_none(), "varying field is a parameter");
        }
        other => panic!("expected Delegate, got {other:?}"),
    }
    let props = m.parameters.get("properties").unwrap();
    assert!(matches!(props.get("city"), Some(JsonValue::Object(_))));
    match m.parameters.get("required") {
        Some(JsonValue::Array(items)) => assert_eq!(items[0].as_str(), Some("city")),
        other => panic!("expected a required list, got {other:?}"),
    }
}

#[test]
fn parameterize_multistep_uses_typed_placeholders() {
    let a = multi_episode(
        "a",
        "fetch and store 17",
        vec![("http", args(vec![("q", text("data"))])), ("memory", args(vec![("slot", num(17))]))],
        1,
    );
    let b = multi_episode(
        "b",
        "fetch and store",
        vec![("http", args(vec![("q", text("data"))])), ("memory", args(vec![("slot", num(42))]))],
        2,
    );
    let m = parameterize(&[&a, &b]).unwrap();
    match &m.kind {
        SkillKind::Sequence { steps } => {
            assert_eq!(steps[0].args.get("q").and_then(|v| v.as_str()), Some("data"));
            assert_eq!(
                steps[1].args.get("slot").and_then(|v| v.as_str()),
                Some("{slot}"),
                "varying value becomes a placeholder"
            );
        }
        other => panic!("expected Sequence, got {other:?}"),
    }
    let slot = m.parameters.get("properties").and_then(|p| p.get("slot")).unwrap();
    assert_eq!(slot.get("type").and_then(|t| t.as_str()), Some("number"));
}

#[test]
fn parameterize_rejects_mismatched_or_uniform_groups() {
    let a = multi_episode("a", "x", vec![("http", args(vec![("q", num(1))]))], 1);
    let b = multi_episode("b", "y", vec![("shell", args(vec![("q", num(2))]))], 2);
    assert!(parameterize(&[&a, &b]).is_none(), "different chains");

    let c = multi_episode("c", "x", vec![("http", args(vec![("q", num(1))]))], 1);
    let d = multi_episode("d", "y", vec![("http", args(vec![("q", num(1))]))], 2);
    assert!(parameterize(&[&c, &d]).is_none(), "nothing varies");

    assert!(parameterize(&[&a]).is_none(), "needs at least two episodes");
}

fn default_config() -> TunnelConfig {
    tunnel_config("cloudflare")
}

#[test]
fn parse_backend_cloudflare() {
    let config = default_config();
    let mgr = TunnelManager::new(config);
    assert_eq!(mgr.parse_backend().unwrap(), TunnelBackend::Cloudflare);
}

#[test]
fn parse_backend_cloudflared_alias() {
    let mut config = default_config();
    config.backend = "cloudflared".to_string();
    let mgr = TunnelManager::new(config);
    assert_eq!(mgr.parse_backend().unwrap(), TunnelBackend::Cloudflare);
}

#[test]
fn parse_backend_tailscale() {
    let mut config = default_config();
    config.backend = "tailscale".to_string();
    let mgr = TunnelManager::new(config);
    assert_eq!(mgr.parse_backend().unwrap(), TunnelBackend::Tailscale);
}

#[test]
fn parse_backend_unknown_returns_error() {
    let mut config = default_config();
    config.backend = "ngrok".to_string();
    let mgr = TunnelManager::new(config);
    assert!(mgr.parse_backend().is_err());
}

#[test]
fn tunnel_lifecycle_runs_once_and_stops() {
    let mut mgr = TunnelManager::new(tunnel_config("Tailscale"));
    assert_eq!(mgr.status(), TunnelStatus::Stopped);
    assert_eq!(mgr.url(), None);
    assert_eq!(
        mgr.begin_start(),
        Ok(StartStep::Launch { backend: TunnelBackend::Tailscale, local_port: 8080 })
    );
    assert_eq!(mgr.status(), TunnelStatus::Starting);
    assert_eq!(mgr.finish_start(Ok("https://box.ts.net".to_string())), Ok("https://box.ts.net".to_string()));
    assert_eq!(mgr.url(), Some("https://box.ts.net".to_string()));
    assert_eq!(
        mgr.begin_start(),
        Ok(StartStep::AlreadyRunning { url: "https://box.ts.net".to_string() })
    );
    mgr.stop();
    assert_eq!(mgr.status(), TunnelStatus::Stopped);

    let mut bad = TunnelManager::new(tunnel_config("NGROK"));
    assert_eq!(
        bad.begin_start(),
        Err("Unknown tunnel backend: 'ngrok'. Use 'cloudflare' or 'tailscale'.".to_string())
    );
    let mut failing = TunnelManager::new(default_config());
    assert!(failing.begin_start().is_ok());
    assert_eq!(
        failing.finish_start(Err("no binary".to_string())),
        Err("Failed to start tunnel: no binary".to_string())
    );
    assert_eq!(failing.status().to_string(), "error: no binary");
}

#[test]
fn runs_are_grouped_by_signature_in_key_order() {
    let sigs: Vec<String> = ["http→shell", "", "gpio", "http→shell", "gpio", "alpha"]
        .iter()
        .map(|s| s.to_string())
        .collect();
    let groups = signature_groups(&sigs);
    assert_eq!(
        groups,
        vec![
            ("alpha".to_string(), vec![5]),
            ("gpio".to_string(), vec![2, 4]),
            ("http→shell".to_string(), vec![0, 3]),
        ]
    );
    assert!(signature_groups(&[]).is_empty());
}

#[test]
fn generalized_candidates_come_first_with_the_newest_run_as_exemplar() {
    let a = multi_episode(
        "a",
        "check the weather in Oslo",
        vec![("http", args(vec![("city", text("Oslo")), ("q", text("weather"))]))],
        5,
    );
    let b = multi_episode(
        "b",
        "check the weather",
        vec![("http", args(vec![("city", text("Bergen")), ("q", text("weather"))]))],
        2,
    );
    let c = multi_episode("c", "note it", vec![("memory", args(vec![("k", num(1))]))], 3);
    let cands = improvement_candidates(&[a, b, c]);
    let names: Vec<(&str, usize)> = cands.iter().map(|(m, i)| (m.name.as_str(), *i)).collect();
    assert_eq!(
        names,
        vec![
            ("learned_check_the_weather", 0),
            ("learned_check_the_weather_in_oslo", 0),
            ("learned_check_the_weather", 1),
            ("learned_note_it", 2),
        ]
    );
    assert!(cands[0].0.tags.contains(&"parameterized".to_string()));
    let mut failed = multi_episode("d", "x", vec![("http", args(vec![]))], 1);
    failed.outcome = Outcome::Failure;
    assert!(improvement_candidates(&[failed]).is_empty());
}

#[test]
fn a_granted_promotion_moves_the_manifest_and_restarts_the_record() {
    let mut tracker = tracker_in("/tmp/obc-promote-skill/");
    let mut m = sample_shell_manifest("learned_unlock");
    tracker.record_clean("learned_unlock", RolloutStage::Simulate);
    tracker.record_clean("learned_unlock", RolloutStage::Simulate);
    assert!(promote_skill(&mut tracker, &mut m, 3).is_err());
    assert_eq!(m.stage, RolloutStage::Simulate);
    assert_eq!(tracker.record("learned_unlock").unwrap().clean_runs, 2);
    tracker.record_clean("learned_unlock", RolloutStage::Simulate);
    let copy = tracker.snapshot();
    assert_eq!(promote_skill(&mut tracker, &mut m, 3), Ok(RolloutStage::Supervised));
    assert_eq!(m.stage, RolloutStage::Supervised);
    let rec = tracker.record("learned_unlock").unwrap();
    assert_eq!((rec.stage, rec.clean_runs, rec.failures), (RolloutStage::Supervised, 0, 0));
    assert_eq!(copy.record("learned_unlock").unwrap().clean_runs, 3);
    assert_eq!(demote_skill(&mut tracker, &mut m), Ok(RolloutStage::Simulate));
    assert_eq!(m.stage, RolloutStage::Simulate);
    assert!(demote_skill(&mut tracker, &mut m).is_err());
    assert_eq!(tracker.record("learned_unlock").unwrap().stage, RolloutStage::Simulate);
}

#[test]
fn an_improvement_pass_enables_only_verified_safe_skills() {
    let improver = SkillImprover::new(
        SkillForge::new("/skills".to_string()),
        vec!["gpio_write".to_string()],
        1,
    );
    let episodes = vec![
        episode("read the weather", vec![step("weather", true)]),
        episode("unlock the door", vec![step("gpio_write", true)]),
        episode("read the clock", vec![step("clock", true)]),
    ];
    let (mut pass, mut action) = begin_pass(&improver, &episodes, vec![]);
    let mut installs = 0;
    loop {
        let event = match action {
            PassAction::AssessRisks { tools } => {
                PassEvent::Risks(tools.iter().map(|_| RiskClass::safe()).collect())
            }
            PassAction::Replay { steps } => {
                assert!(!steps.is_empty());
                PassEvent::Replayed(true)
            }
            PassAction::InstallEnabled => {
                let m = pass.staged.as_ref().unwrap();
                assert!(m.enabled);
                assert_eq!(m.stage, RolloutStage::Autonomous);
                installs += 1;
                PassEvent::Installed(true)
            }
            PassAction::InstallSupervised => {
                let m = pass.staged.as_ref().unwrap();
                assert_eq!(m.stage, RolloutStage::Simulate);
                assert!(m.tags.contains(&"track0:supervised".to_string()));
                PassEvent::Installed(true)
            }
            PassAction::RunSensorChecks { .. } => PassEvent::SensorChecked(true),
            PassAction::RunChecks { .. } => PassEvent::Checked(true),
            PassAction::Finish { skills_changed } => {
                assert!(skills_changed);
                break;
            }
            PassAction::Ignored => panic!("out of step"),
        };
        let (p, a) = improve_step(&improver, &episodes, pass, event);
        pass = p;
        action = a;
    }
    assert_eq!(installs, 1);
    assert_eq!(pass.learned, 1);
    assert_eq!(pass.report.episodes_scanned, 3);
    assert_eq!(pass.report.candidates, 3);
    assert_eq!(pass.report.installed.len(), 1);
    assert_eq!(pass.report.pending_supervised.len(), 1);
    assert_eq!(pass.report.rejected.len(), 1);
}

#[test]
fn an_evolution_pass_rewrites_used_learned_skills_up_to_its_cap() {
    let evolver = DescriptionEvolver::new(SkillForge::new("/skills".to_string()), "/log".to_string(), 1);
    let recent = vec![
        episode("  turn on the fan ", vec![step("learned_fan", true)]),
        episode("water plants", vec![step("learned_water", true)]),
    ];
    let manifests = vec![
        sample_shell_manifest("learned_fan"),
        sample_shell_manifest("other_tool"),
        sample_shell_manifest("learned_idle"),
        sample_shell_manifest("learned_water"),
    ];
    let (mut pass, mut action) = begin_evolve(&evolver, manifests, &recent);
    let mut prompts = 0;
    loop {
        let event = match action {
            EvolveAction::Ask { prompt } => {
                prompts += 1;
                assert!(prompt.contains("Tool name: learned_fan"));
                assert!(prompt.contains("- objective: \"turn on the fan\"; outcome: Success"));
                EvolveEvent::Answered(Ok("\"Turns on the ceiling fan.\"".to_string()), 7)
            }
            EvolveAction::Install => {
                assert_eq!(pass.current.as_ref().unwrap().description, "Turns on the ceiling fan.");
                EvolveEvent::Installed(true)
            }
            EvolveAction::Log => {
                let e = pass.entry.as_ref().unwrap();
                assert_eq!((e.ts_ms, e.kind.as_str()), (7, "evolve"));
                EvolveEvent::Logged
            }
            EvolveAction::Finish => break,
            EvolveAction::Ignored => panic!("out of step"),
        };
        let (p, a) = evolve_step(&evolver, &recent, pass, event);
        pass = p;
        action = a;
    }
    assert_eq!(prompts, 1);
    assert_eq!(pass.report.rewritten, vec!["learned_fan".to_string()]);
    assert_eq!(pass.report.considered, 1);
}

#[test]
fn directory_listings_are_sorted_with_directories_marked() {
    let entries = vec![
        ("zeta.txt".to_string(), false),
        ("docs".to_string(), true),
        ("Alpha".to_string(), false),
        ("beta".to_string(), false),
    ];
    assert_eq!(FileTool::listing(&entries), "Alpha\nbeta\ndocs/\nzeta.txt");
    assert_eq!(FileTool::listing(&[]), "");
}

#[test]
fn forge_listings_summarize_each_skill() {
    let none = SkillForgeTool::list_result(&[]);
    assert_eq!(none.output, "No skills installed.");
    let listed = SkillForgeTool::list_result(&[sample_shell_manifest("echo_test")]);
    assert!(listed.success);
    assert_eq!(
        listed.output,
        "[\n  {\n    \"description\": \"A test skill.\",\n    \"enabled\": true,\n    \"name\": \"echo_test\",\n    \"tags\": [\n      \"test\"\n    ],\n    \"version\": \"1.0.0\"\n  }\n]"
    );
}
