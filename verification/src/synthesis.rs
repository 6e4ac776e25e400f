//! Skill synthesis from experience.
//!
//! Turns a successful [`Episode`] into a reusable [`SkillManifest`] so the
//! agent can replay a proven recipe instead of reasoning from scratch.
//! Synthesized skills are quarantined (`enabled = false`) until they pass a
//! [`VerificationCheck`]; skills that touch a physical tool go through Track 0
//! staged rollout instead of running unattended.

use vstd::prelude::*;

use crate::json::{json_clone, json_view, JsonValue, JsonView};
use crate::skill::{SkillKind, SkillManifest, SkillStep};
use crate::text::{
    char_is_ascii_alnum, chars_of, contains, extend_chars, extend_str, is_ascii_alnum,
    lowercase, slice_chars, string_of, to_lowercase, trim, trimmed,
};
use crate::track0::RolloutStage;

verus! {

broadcast use vstd::string::group_string_axioms;

/// How a run ended.
#[derive(Debug, Clone, Copy, PartialEq, Eq, Structural)]
pub enum Outcome {
    Success,
    Failure,
}

/// One tool call of a recorded run.
#[derive(Debug, PartialEq)]
pub struct EpisodeStep {
    pub tool: String,
    pub args: JsonValue,
    pub result: String,
    pub ok: bool,
}

/// A recorded run of the agent towards an objective.
#[derive(Debug, PartialEq)]
pub struct Episode {
    pub id: String,
    pub session_id: String,
    pub objective: String,
    pub steps: Vec<EpisodeStep>,
    pub outcome: Outcome,
    pub ts_ms: u64,
    pub duration_ms: Option<u64>,
    pub tokens_est: Option<u64>,
}

/// A concrete check a synthesized skill must pass before it is trusted.
#[derive(Debug, Clone, PartialEq, Eq)]
pub enum VerificationCheck {
    /// Re-run the recipe in a sandbox and require this outcome.
    Replay { expect_outcome: Outcome },
    /// Require the replay output to contain a substring (a sensor confirms the effect).
    SensorAssertion { tool: String, contains: String },
    /// Run a shell command and require this exit code.
    TestCommand { cmd: String, expect_exit: i32 },
}

/// Whether a replay's observed result passes `check`.
pub open spec fn spec_verify(check: VerificationCheck, outcome: Outcome, output: Seq<char>, exit: i32) -> bool {
    match check {
        VerificationCheck::Replay { expect_outcome } => outcome == expect_outcome,
        VerificationCheck::SensorAssertion { contains: c, .. } => contains(output, c@),
        VerificationCheck::TestCommand { expect_exit, .. } => exit == expect_exit,
    }
}

/// Evaluates a verification check against a replay's observed result.
pub fn verify(check: &VerificationCheck, replay_outcome: Outcome, replay_output: &str, replay_exit: i32) -> (b: bool)
    ensures
        b == spec_verify(*check, replay_outcome, replay_output@, replay_exit),
{
    match check {
        VerificationCheck::Replay { expect_outcome } => replay_outcome == *expect_outcome,
        VerificationCheck::SensorAssertion { contains, .. } => crate::text::contains_chars(
            &chars_of(replay_output),
            &chars_of(contains.as_str()),
        ),
        VerificationCheck::TestCommand { expect_exit, .. } => replay_exit == *expect_exit,
    }
}

// ── Names ────────────────────────────────────────────────────────────────────

/// The scan of `t[..n]` that keeps ASCII alphanumerics and turns each run of
/// other characters into one `_`: (text so far, last char was such a run).
pub open spec fn slug_scan(t: Seq<char>, n: int) -> (Seq<char>, bool)
    decreases n,
{
    if n <= 0 || n > t.len() {
        (seq![], false)
    } else {
        let (out, prev_us) = slug_scan(t, n - 1);
        let c = t[n - 1];
        if is_ascii_alnum(c) {
            (out.push(c), false)
        } else if !prev_us {
            (out.push('_'), true)
        } else {
            (out, prev_us)
        }
    }
}

/// `s` without leading and trailing `_`.
pub open spec fn trim_underscores(s: Seq<char>) -> Seq<char>
    decreases s.len(),
{
    if s.len() > 0 && s[0] == '_' {
        trim_underscores(s.drop_first())
    } else if s.len() > 0 && s.last() == '_' {
        trim_underscores(s.drop_last())
    } else {
        s
    }
}

/// A safe snake_case name fragment for an objective: its trimmed,
/// lowercased text with ASCII alphanumerics kept, other runs turned into one
/// `_`, outer `_` removed; `skill` when nothing is left.
pub open spec fn spec_slugify(objective: Seq<char>) -> Seq<char> {
    let l = lowercase(trim(objective));
    let t = trim_underscores(slug_scan(l, l.len() as int).0);
    if t.len() == 0 {
        "skill"@
    } else {
        t
    }
}

proof fn lemma_slug_scan_chars(t: Seq<char>, n: int)
    requires
        0 <= n <= t.len(),
    ensures
        forall|i: int|
            0 <= i < slug_scan(t, n).0.len() ==> is_ascii_alnum(#[trigger] slug_scan(t, n).0[i])
                || slug_scan(t, n).0[i] == '_',
        forall|i: int|
            0 <= i < slug_scan(t, n).0.len() - 1 ==> !(#[trigger] slug_scan(t, n).0[i] == '_' && slug_scan(
                t,
                n,
            ).0[i + 1] == '_'),
        slug_scan(t, n).1 <==> (slug_scan(t, n).0.len() > 0 && slug_scan(t, n).0.last() == '_'),
    decreases n,
{
    if n > 0 {
        lemma_slug_scan_chars(t, n - 1);
    }
}

proof fn lemma_trim_underscores_shape(s: Seq<char>)
    ensures
        trim_underscores(s).len() == 0 || (trim_underscores(s)[0] != '_' && trim_underscores(s).last()
            != '_'),
        exists|a: int, b: int| 0 <= a <= b <= s.len() && trim_underscores(s) == s.subrange(a, b),
    decreases s.len(),
{
    if s.len() > 0 && s[0] == '_' {
        lemma_trim_underscores_shape(s.drop_first());
        let (a, b) = choose|a: int, b: int|
            0 <= a <= b <= s.drop_first().len() && trim_underscores(s.drop_first()) == s.drop_first().subrange(a, b);
        assert(s.drop_first().subrange(a, b) == s.subrange(a + 1, b + 1));
    } else if s.len() > 0 && s.last() == '_' {
        lemma_trim_underscores_shape(s.drop_last());
        let (a, b) = choose|a: int, b: int|
            0 <= a <= b <= s.drop_last().len() && trim_underscores(s.drop_last()) == s.drop_last().subrange(a, b);
        assert(s.drop_last().subrange(a, b) == s.subrange(a, b));
    } else {
        assert(s == s.subrange(0, s.len() as int));
    }
}

/// A slug is a safe name fragment whatever the objective: non-empty, made of
/// ASCII letters, digits and `_`, with no `_` at either end and never two in
/// a row.
pub proof fn lemma_slug_is_safe(objective: Seq<char>)
    ensures
        spec_slugify(objective).len() > 0,
        forall|i: int|
            0 <= i < spec_slugify(objective).len() ==> is_ascii_alnum(#[trigger] spec_slugify(objective)[i])
                || spec_slugify(objective)[i] == '_',
        spec_slugify(objective)[0] != '_',
        spec_slugify(objective).last() != '_',
        forall|i: int|
            0 <= i < spec_slugify(objective).len() - 1 ==> !(#[trigger] spec_slugify(objective)[i] == '_'
                && spec_slugify(objective)[i + 1] == '_'),
{
    let l = lowercase(trim(objective));
    let raw = slug_scan(l, l.len() as int).0;
    lemma_slug_scan_chars(l, l.len() as int);
    lemma_trim_underscores_shape(raw);
    let t = trim_underscores(raw);
    if t.len() == 0 {
        reveal_strlit("skill");
        assert(spec_slugify(objective) == "skill"@);
        assert forall|i: int| 0 <= i < 5 implies is_ascii_alnum(#[trigger] "skill"@[i]) by {}
    } else {
        let (a, b) = choose|a: int, b: int| 0 <= a <= b <= raw.len() && t == raw.subrange(a, b);
        assert forall|i: int| 0 <= i < t.len() implies is_ascii_alnum(#[trigger] t[i]) || t[i] == '_' by {
            assert(t[i] == raw[a + i]);
        }
        assert forall|i: int| 0 <= i < t.len() - 1 implies !(#[trigger] t[i] == '_' && t[i + 1] == '_') by {
            assert(t[i] == raw[a + i]);
            assert(t[i + 1] == raw[a + i + 1]);
        }
    }
}

fn trim_underscores_exec(s: &[char]) -> (r: Vec<char>)
    ensures
        r@ == trim_underscores(s@),
{
    let mut a: usize = 0;
    let mut b: usize = s.len();
    assert(s@.subrange(0, s@.len() as int) == s@);
    while a < b && s[a] == '_'
        invariant
            a <= b == s.len(),
            trim_underscores(s@) == trim_underscores(s@.subrange(a as int, b as int)),
        decreases b - a,
    {
        assert(s@.subrange(a as int, b as int).drop_first() == s@.subrange(a + 1, b as int));
        a = a + 1;
    }
    while a < b && s[b - 1] == '_'
        invariant
            a <= b <= s.len(),
            a == b || s@[a as int] != '_',
            trim_underscores(s@) == trim_underscores(s@.subrange(a as int, b as int)),
        decreases b - a,
    {
        assert(s@.subrange(a as int, b as int).drop_last() == s@.subrange(a as int, b - 1));
        b = b - 1;
    }
    assert(trim_underscores(s@.subrange(a as int, b as int)) == s@.subrange(a as int, b as int));
    slice_chars(s, a, b)
}

/// Converts an objective into a safe snake_case skill-name fragment.
pub fn slugify(objective: &str) -> (r: String)
    ensures
        r@ == spec_slugify(objective@),
{
    let t = trimmed(&chars_of(objective));
    let l = chars_of(to_lowercase(string_of(&t).as_str()).as_str());
    let mut out: Vec<char> = Vec::new();
    let mut prev_us = false;
    let mut i: usize = 0;
    while i < l.len()
        invariant
            i <= l.len(),
            (out@, prev_us) == slug_scan(l@, i as int),
        decreases l.len() - i,
    {
        let ch = l[i];
        if char_is_ascii_alnum(ch) {
            out.push(ch);
            prev_us = false;
        } else if !prev_us {
            out.push('_');
            prev_us = true;
        }
        i = i + 1;
    }
    let tr = trim_underscores_exec(&out);
    if tr.len() == 0 {
        "skill".to_string()
    } else {
        string_of(&tr)
    }
}

// ── Episodes ─────────────────────────────────────────────────────────────────

/// The tools of the successful steps among `steps[..n]`, in order.
pub open spec fn ok_tools(steps: Seq<EpisodeStep>, n: int) -> Seq<Seq<char>>
    decreases n,
{
    if n <= 0 || n > steps.len() {
        seq![]
    } else if steps[n - 1].ok {
        ok_tools(steps, n - 1).push(steps[n - 1].tool@)
    } else {
        ok_tools(steps, n - 1)
    }
}

/// `parts` joined with `sep`.
pub open spec fn join_with(parts: Seq<Seq<char>>, sep: Seq<char>) -> Seq<char>
    decreases parts.len(),
{
    if parts.len() == 0 {
        seq![]
    } else if parts.len() == 1 {
        parts[0]
    } else {
        join_with(parts.drop_last(), sep) + sep + parts.last()
    }
}

proof fn lemma_ok_counts(steps: Seq<EpisodeStep>, n: int)
    requires
        0 <= n <= steps.len(),
    ensures
        ok_tools(steps, n).len() <= n,
        ok_indices(steps, n).len() <= n,
        ok_tools(steps, n).len() == ok_indices(steps, n).len(),
    decreases n,
{
    if n > 0 {
        lemma_ok_counts(steps, n - 1);
    }
}

/// The ordered tool chain of an episode's successful steps.
pub open spec fn spec_chain_signature(ep: Episode) -> Seq<char> {
    join_with(ok_tools(ep.steps@, ep.steps@.len() as int), "→"@)
}

/// The ordered tool chain of an episode's successful steps, joined with `→`
/// (a grouping key).
pub fn chain_signature(ep: &Episode) -> (s: String)
    ensures
        s@ == spec_chain_signature(*ep),
{
    let mut out: Vec<char> = Vec::new();
    let mut count: usize = 0;
    let mut i: usize = 0;
    while i < ep.steps.len()
        invariant
            i <= ep.steps.len(),
            count == ok_tools(ep.steps@, i as int).len(),
            out@ == join_with(ok_tools(ep.steps@, i as int), "→"@),
        decreases ep.steps.len() - i,
    {
        proof {
            lemma_ok_counts(ep.steps@, i as int);
        }
        if ep.steps[i].ok {
            let ghost parts = ok_tools(ep.steps@, i + 1);
            assert(parts.drop_last() == ok_tools(ep.steps@, i as int));
            if count > 0 {
                extend_str(&mut out, "→");
            }
            extend_str(&mut out, ep.steps[i].tool.as_str());
            assert(count == 0 ==> ok_tools(ep.steps@, i as int).len() == 0);
            count = count + 1;
        }
        i = i + 1;
    }
    string_of(&out)
}

/// Whether some step of the episode invoked one of `physical_tools`.
pub open spec fn spec_touches_actuator(ep: Episode, physical_tools: Seq<&str>) -> bool {
    exists|i: int, j: int|
        0 <= i < ep.steps@.len() && 0 <= j < physical_tools.len() && #[trigger] ep.steps@[i].tool@
            == #[trigger] physical_tools[j]@
}

/// Whether an episode invoked any physical/actuator tool (Track 0 interlock):
/// such learned skills go through staged rollout, not unattended runs.
pub fn touches_actuator(ep: &Episode, physical_tools: &[&str]) -> (b: bool)
    ensures
        b == spec_touches_actuator(*ep, physical_tools@),
{
    let mut i: usize = 0;
    while i < ep.steps.len()
        invariant
            i <= ep.steps.len(),
            forall|a: int, j: int|
                0 <= a < i && 0 <= j < physical_tools@.len() ==> #[trigger] ep.steps@[a].tool@
                    != #[trigger] physical_tools@[j]@,
        decreases ep.steps.len() - i,
    {
        let t = chars_of(ep.steps[i].tool.as_str());
        let mut j: usize = 0;
        while j < physical_tools.len()
            invariant
                i < ep.steps.len(),
                j <= physical_tools.len(),
                t@ == ep.steps@[i as int].tool@,
                forall|a: int, k: int|
                    0 <= a < i && 0 <= k < physical_tools@.len() ==> #[trigger] ep.steps@[a].tool@
                        != #[trigger] physical_tools@[k]@,
                forall|k: int| 0 <= k < j ==> ep.steps@[i as int].tool@ != #[trigger] physical_tools@[k]@,
            decreases physical_tools.len() - j,
        {
            if crate::text::chars_eq(&t, &chars_of(physical_tools[j])) {
                return true;
            }
            j = j + 1;
        }
        i = i + 1;
    }
    false
}

// ── Synthesis ────────────────────────────────────────────────────────────────

/// The indices of the successful steps among `steps[..n]`.
pub open spec fn ok_indices(steps: Seq<EpisodeStep>, n: int) -> Seq<int>
    decreases n,
{
    if n <= 0 || n > steps.len() {
        seq![]
    } else if steps[n - 1].ok {
        ok_indices(steps, n - 1).push(n - 1)
    } else {
        ok_indices(steps, n - 1)
    }
}

/// The content of a synthesized recipe: one (tool, arguments) per step.
pub open spec fn recipe_of(ep: Episode) -> Seq<(Seq<char>, JsonView)> {
    let idx = ok_indices(ep.steps@, ep.steps@.len() as int);
    if idx.len() >= 2 && idx.len() < ep.steps@.len() {
        seq![(ep.steps@[idx[0]].tool@, json_view(ep.steps@[idx[0]].args))]
    } else {
        idx.map_values(|i: int| (ep.steps@[i].tool@, json_view(ep.steps@[i].args)))
    }
}

/// A skill kind's recipe as (tool, arguments) steps, and whether it is a
/// sequence.
pub open spec fn kind_recipe(k: SkillKind) -> Option<(bool, Seq<(Seq<char>, JsonView)>)> {
    match k {
        SkillKind::Delegate { tool, fixed_args } => Some((false, seq![(tool@, json_view(fixed_args))])),
        SkillKind::Sequence { steps } => Some(
            (true, steps@.map_values(|s: SkillStep| (s.tool@, json_view(s.args)))),
        ),
        _ => None,
    }
}

/// The JSON Schema of a skill without parameters.
pub open spec fn empty_schema_view() -> JsonView {
    JsonView::Object(
        seq![("properties"@, JsonView::Object(seq![])), ("type"@, JsonView::Str("object"@))],
    )
}

fn empty_schema() -> (v: JsonValue)
    ensures
        json_view(v) == empty_schema_view(),
{
    let v = JsonValue::Object(
        vec![
            ("properties".to_string(), JsonValue::Object(Vec::new())),
            ("type".to_string(), JsonValue::String("object".to_string())),
        ],
    );
    proof {
        let f = v->Object_0;
        reveal_with_fuel(crate::json::fields_view, 3);
        reveal_with_fuel(crate::json::items_view, 1);
        assert(crate::json::fields_view(f@, 0) =~= seq![
            ("properties"@, JsonView::Object(seq![])),
            ("type"@, JsonView::Str("object"@)),
        ]);
    }
    v
}

fn clone_args(args: &JsonValue) -> (r: JsonValue)
    ensures
        json_view(r) == json_view(*args),
{
    json_clone(args)
}

/// Whether a skill can be synthesized from `ep`: it succeeded and has a
/// successful step.
pub open spec fn synthesizes(ep: Episode) -> bool {
    ep.outcome == Outcome::Success && ok_indices(ep.steps@, ep.steps@.len() as int).len() > 0
}

/// `m` is the skill synthesized from `ep`: named `learned_<slug>`, its
/// recipe the successful steps (a sequence when every step succeeded and
/// there are several, else the first successful step alone), without
/// parameters, disabled, at the `simulate` stage.
pub open spec fn episode_skill(m: SkillManifest, ep: Episode) -> bool {
    let idx = ok_indices(ep.steps@, ep.steps@.len() as int);
    &&& m.name@ == "learned_"@ + spec_slugify(ep.objective@)
    &&& m.description@ == "Learned from a successful run: "@ + trim(ep.objective@)
    &&& kind_recipe(m.kind) == Some((idx.len() >= 2 && idx.len() == ep.steps@.len(), recipe_of(ep)))
    &&& json_view(m.parameters) == empty_schema_view()
    &&& m.version matches Some(v) && v@ == "0.1.0-learned"@
    &&& m.stage == RolloutStage::Simulate
    &&& m.tags@.len() == 1 && m.tags@[0]@ == "learned"@
    &&& !m.enabled
    &&& m.timeout_secs == 30
}

/// Synthesizes a reusable, quarantined skill from a successful episode.
///
/// A single successful step becomes a `Delegate` recipe; several steps, all
/// successful, become a `Sequence` replaying the proven tool chain in order;
/// with failed steps interleaved, the first successful step is kept alone.
/// `None` if the episode did not succeed or has no successful step. The
/// result is named `learned_<slug>`, disabled, at the `simulate` stage.
pub fn synthesize(ep: &Episode) -> (r: Option<SkillManifest>)
    ensures
        match r {
            None => !synthesizes(*ep),
            Some(m) => synthesizes(*ep) && episode_skill(m, *ep),
        },
{
    if ep.outcome != Outcome::Success {
        return None;
    }
    let ghost idx = ok_indices(ep.steps@, ep.steps@.len() as int);
    let mut ok: Vec<usize> = Vec::new();
    let mut i: usize = 0;
    while i < ep.steps.len()
        invariant
            i <= ep.steps.len(),
            ok@.len() == ok_indices(ep.steps@, i as int).len(),
            forall|k: int| 0 <= k < ok@.len() ==> ok@[k] as int == #[trigger] ok_indices(ep.steps@, i as int)[k],
            forall|k: int| 0 <= k < ok@.len() ==> 0 <= #[trigger] ok@[k] < i,
        decreases ep.steps.len() - i,
    {
        if ep.steps[i].ok {
            ok.push(i);
        }
        i = i + 1;
    }
    proof {
        lemma_ok_counts(ep.steps@, ep.steps@.len() as int);
    }
    if ok.len() == 0 {
        return None;
    }
    let kind = if ok.len() == 1 || ok.len() < ep.steps.len() {
        let s = &ep.steps[ok[0]];
        let k = SkillKind::Delegate { tool: s.tool.clone(), fixed_args: clone_args(&s.args) };
        assert(recipe_of(*ep) =~= seq![(ep.steps@[idx[0]].tool@, json_view(ep.steps@[idx[0]].args))]);
        k
    } else {
        let mut steps: Vec<SkillStep> = Vec::new();
        let mut k: usize = 0;
        while k < ok.len()
            invariant
                k <= ok.len(),
                ok@.len() == idx.len(),
                forall|q: int| 0 <= q < ok@.len() ==> ok@[q] as int == #[trigger] idx[q],
                forall|q: int| 0 <= q < ok@.len() ==> 0 <= #[trigger] ok@[q] < ep.steps@.len(),
                steps@.len() == k,
                forall|q: int|
                    0 <= q < k ==> (#[trigger] steps@[q]).tool@ == ep.steps@[idx[q]].tool@ && json_view(
                        steps@[q].args,
                    ) == json_view(ep.steps@[idx[q]].args),
            decreases ok.len() - k,
        {
            let s = &ep.steps[ok[k]];
            steps.push(SkillStep { tool: s.tool.clone(), args: clone_args(&s.args) });
            k = k + 1;
        }
        assert(steps@.map_values(|s: SkillStep| (s.tool@, json_view(s.args))) =~= recipe_of(*ep));
        SkillKind::Sequence { steps }
    };
    let mut name = chars_of("learned_");
    extend_str(&mut name, slugify(ep.objective.as_str()).as_str());
    let mut desc = chars_of("Learned from a successful run: ");
    extend_chars(&mut desc, &trimmed(&chars_of(ep.objective.as_str())));
    Some(
        SkillManifest {
            name: string_of(&name),
            description: string_of(&desc),
            kind,
            parameters: empty_schema(),
            version: Some("0.1.0-learned".to_string()),
            stage: RolloutStage::Simulate,
            tags: vec!["learned".to_string()],
            enabled: false,
            timeout_secs: 30,
        },
    )
}

/// Routes a synthesized skill that touches a physical tool into Track 0
/// staged rollout: tagged `track0:supervised` (once), enabled so the model
/// can invoke it, and at the `simulate` stage, where the agent only reports
/// what would run until an operator promotes it.
pub fn tag_physical(manifest: SkillManifest) -> (m: SkillManifest)
    ensures
        m.stage == RolloutStage::Simulate,
        m.enabled,
        m.name == manifest.name,
        m.description == manifest.description,
        m.kind == manifest.kind,
        m.parameters == manifest.parameters,
        m.version == manifest.version,
        m.timeout_secs == manifest.timeout_secs,
        (exists|i: int| 0 <= i < manifest.tags@.len() && manifest.tags@[i]@ == "track0:supervised"@)
            ==> m.tags@ == manifest.tags@,
        !(exists|i: int| 0 <= i < manifest.tags@.len() && manifest.tags@[i]@ == "track0:supervised"@)
            ==> m.tags@.len() == manifest.tags@.len() + 1 && m.tags@.drop_last() == manifest.tags@
            && m.tags@.last()@ == "track0:supervised"@,
{
    let mut manifest = manifest;
    let tag = chars_of("track0:supervised");
    let mut found = false;
    let mut i: usize = 0;
    while i < manifest.tags.len()
        invariant
            i <= manifest.tags.len(),
            tag@ == "track0:supervised"@,
            found <==> exists|k: int| 0 <= k < i && manifest.tags@[k]@ == "track0:supervised"@,
        decreases manifest.tags.len() - i,
    {
        if crate::text::chars_eq(&chars_of(manifest.tags[i].as_str()), &tag) {
            found = true;
        }
        i = i + 1;
    }
    if !found {
        manifest.tags.push("track0:supervised".to_string());
    }
    manifest.stage = RolloutStage::Simulate;
    manifest.enabled = true;
    manifest
}

/// Approves a verified skill: out of quarantine (enabled) at the
/// `autonomous` stage; everything else unchanged.
pub fn approve(manifest: SkillManifest) -> (m: SkillManifest)
    ensures
        m == (SkillManifest { enabled: true, stage: RolloutStage::Autonomous, ..manifest }),
{
    let mut manifest = manifest;
    manifest.enabled = true;
    manifest.stage = RolloutStage::Autonomous;
    manifest
}

} // verus!
