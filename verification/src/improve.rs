//! The self-improvement loop's decisions: which synthesized candidates are
//! installed enabled, which are routed to Track 0 staged rollout, and which
//! are refused.
//!
//! Only candidates whose recipe is safe to re-run are verified by replay and
//! auto-enabled; a candidate whose exemplar run touched an actuator, or any of
//! whose steps is not safe to replay, is never approved: it goes to staged
//! rollout for an operator to promote.

use vstd::prelude::*;

use crate::parameterize::{generalizes, group_skill, newest_index, parameterize};
use crate::skill::{SkillForge, SkillManifest};
use crate::synthesis::{
    chain_signature, episode_skill, spec_chain_signature, spec_touches_actuator, synthesize,
    synthesizes, Episode, EpisodeStep, VerificationCheck,
};
use crate::json::{json_clone, json_view, JsonValue, JsonView};
use crate::text::{
    chars_eq, chars_less, chars_of, has_prefix, lemma_seq_less_total,
    lemma_seq_less_transitive, seq_less, slice_chars, starts_with,
};
use crate::track0::{BlastRadius, RiskClass, RolloutStage};

verus! {

broadcast use vstd::string::group_string_axioms;

/// A configured verification requirement applied to synthesized skills whose
/// name matches `skill_pattern` (exact, or prefix with a trailing `*`).
#[derive(Debug, Clone, PartialEq, Eq)]
pub struct VerificationRule {
    pub skill_pattern: String,
    pub check: VerificationCheck,
}

/// Whether `name` matches `pattern`: a pattern ending in `*` matches names
/// starting with what precedes that `*`; any other pattern matches itself.
pub open spec fn spec_pattern_matches(pattern: Seq<char>, name: Seq<char>) -> bool {
    if pattern.len() > 0 && pattern.last() == '*' {
        starts_with(name, pattern.drop_last())
    } else {
        pattern == name
    }
}

/// Whether `name` matches the rule pattern `pattern`.
pub fn pattern_matches(pattern: &str, name: &str) -> (b: bool)
    ensures
        b == spec_pattern_matches(pattern@, name@),
{
    let p = chars_of(pattern);
    let n = chars_of(name);
    if p.len() > 0 && p[p.len() - 1] == '*' {
        let prefix = slice_chars(&p, 0, p.len() - 1);
        assert(prefix@ == p@.drop_last());
        has_prefix(&n, &prefix)
    } else {
        chars_eq(&p, &n)
    }
}

/// Whether a tool is safe to re-run for verification: no physical effect,
/// reversible, and no real-world blast radius.
pub open spec fn spec_safe_to_replay(risk: RiskClass) -> bool {
    risk.reversible && !risk.physical && risk.blast == BlastRadius::Nothing
}

/// Whether a tool with this risk class may be replayed for verification.
pub fn safe_to_replay(risk: RiskClass) -> (b: bool)
    ensures
        b == spec_safe_to_replay(risk),
{
    risk.reversible && !risk.physical && risk.blast == BlastRadius::Nothing
}

/// Summary of one improvement pass.
#[derive(Debug, Clone, PartialEq, Eq)]
pub struct ImproveReport {
    /// Successful episodes scanned.
    pub episodes_scanned: usize,
    /// Candidate skills synthesized.
    pub candidates: usize,
    /// Verified, non-physical skills installed (enabled).
    pub installed: Vec<String>,
    /// Physical skills installed for staged rollout, awaiting operator promotion.
    pub pending_supervised: Vec<String>,
    /// Candidates that failed verification or hit the capacity limit.
    pub rejected: Vec<String>,
    /// Candidates skipped because a skill of that name already exists.
    pub skipped_existing: usize,
}

impl Default for ImproveReport {
    fn default() -> (r: Self)
        ensures
            r.episodes_scanned == 0,
            r.candidates == 0,
            r.installed@.len() == 0,
            r.pending_supervised@.len() == 0,
            r.rejected@.len() == 0,
            r.skipped_existing == 0,
    {
        ImproveReport {
            episodes_scanned: 0,
            candidates: 0,
            installed: Vec::new(),
            pending_supervised: Vec::new(),
            rejected: Vec::new(),
            skipped_existing: 0,
        }
    }
}

/// Drives the scan → synthesize → verify → install cycle: the forge skills
/// are installed into, the tools treated as actuators, the cap on
/// auto-enabled learned skills, and the configured verification rules.
#[derive(Debug, Clone, PartialEq, Eq)]
pub struct SkillImprover {
    pub forge: SkillForge,
    pub physical_tools: Vec<String>,
    pub max_learned: usize,
    pub rules: Vec<VerificationRule>,
}

impl SkillImprover {
    /// An improver without verification rules.
    pub fn new(forge: SkillForge, physical_tools: Vec<String>, max_learned: usize) -> (s: Self)
        ensures
            s.forge == forge,
            s.physical_tools == physical_tools,
            s.max_learned == max_learned,
            s.rules@.len() == 0,
    {
        SkillImprover { forge, physical_tools, max_learned, rules: Vec::new() }
    }

    /// The improver with `rules` as its verification requirements.
    pub fn with_verification_rules(self, rules: Vec<VerificationRule>) -> (s: Self)
        ensures
            s == (SkillImprover { rules, ..self }),
    {
        let mut s = self;
        s.rules = rules;
        s
    }
}

/// What becomes of one synthesized candidate.
#[derive(Debug, Clone, Copy, PartialEq, Eq, Structural)]
pub enum CandidateRoute {
    /// A skill of that name exists already (or was seen earlier in the pass).
    SkipExisting,
    /// Unsafe to replay: installed for staged rollout, never auto-enabled.
    Supervise,
    /// The cap on auto-enabled learned skills is reached.
    RejectCapacity,
    /// Replay-verify, then approve and install enabled if every check passes.
    Verify,
}

/// The route of a candidate, given whether its name is taken, its exemplar
/// run, the actuator names, the risk class of each successful step (in
/// order), and how many learned skills are installed against the cap.
pub open spec fn spec_route(
    name_taken: bool,
    exemplar: Episode,
    physical: Seq<&str>,
    ok_step_risks: Seq<RiskClass>,
    learned_installed: usize,
    max_learned: usize,
) -> CandidateRoute {
    if name_taken {
        CandidateRoute::SkipExisting
    } else if spec_touches_actuator(exemplar, physical) || ok_step_risks.len() == 0 || exists|k: int| 0 <= k < ok_step_risks.len() && !spec_safe_to_replay(#[trigger] ok_step_risks[k]) {
        CandidateRoute::Supervise
    } else if learned_installed >= max_learned {
        CandidateRoute::RejectCapacity
    } else {
        CandidateRoute::Verify
    }
}

/// Routes one candidate (see [`spec_route`]). `ok_step_risks` are the risk
/// classes the replay executor declares for the exemplar's successful steps.
pub fn route_candidate(
    name_taken: bool,
    exemplar: &Episode,
    physical_tools: &[&str],
    ok_step_risks: &[RiskClass],
    learned_installed: usize,
    max_learned: usize,
) -> (r: CandidateRoute)
    requires
        ok_step_risks@.len() == ok_steps(exemplar.steps@).len(),
    ensures
        r == spec_route(
            name_taken,
            *exemplar,
            physical_tools@,
            ok_step_risks@,
            learned_installed,
            max_learned,
        ),
{
    if name_taken {
        return CandidateRoute::SkipExisting;
    }
    if crate::synthesis::touches_actuator(exemplar, physical_tools) {
        return CandidateRoute::Supervise;
    }
    if ok_step_risks.len() == 0 {
        return CandidateRoute::Supervise;
    }
    let mut k: usize = 0;
    while k < ok_step_risks.len()
        invariant
            k <= ok_step_risks.len(),
            !name_taken,
            forall|q: int| 0 <= q < k ==> spec_safe_to_replay(#[trigger] ok_step_risks@[q]),
        decreases ok_step_risks.len() - k,
    {
        if !safe_to_replay(ok_step_risks[k]) {
            assert(!spec_safe_to_replay(ok_step_risks@[k as int]));
            return CandidateRoute::Supervise;
        }
        k = k + 1;
    }
    if learned_installed >= max_learned {
        CandidateRoute::RejectCapacity
    } else {
        CandidateRoute::Verify
    }
}

// ── The improvement pass as a state machine ──────────────────────────────────

/// The successful steps of a run, in order: tool name and arguments.
pub open spec fn ok_steps(s: Seq<EpisodeStep>) -> Seq<(Seq<char>, JsonView)>
    decreases s.len(),
{
    if s.len() == 0 {
        seq![]
    } else if s.last().ok {
        ok_steps(s.drop_last()).push((s.last().tool@, json_view(s.last().args)))
    } else {
        ok_steps(s.drop_last())
    }
}

/// The tool calls `steps` as text and documents.
pub open spec fn calls_view(steps: Seq<(String, JsonValue)>) -> Seq<(Seq<char>, JsonView)> {
    steps.map_values(|c: (String, JsonValue)| (c.0@, json_view(c.1)))
}

fn ok_steps_of(ep: &Episode) -> (r: Vec<(String, JsonValue)>)
    ensures
        calls_view(r@) == ok_steps(ep.steps@),
{
    let mut r: Vec<(String, JsonValue)> = Vec::new();
    let mut i: usize = 0;
    while i < ep.steps.len()
        invariant
            i <= ep.steps.len(),
            calls_view(r@) == ok_steps(ep.steps@.take(i as int)),
        decreases ep.steps.len() - i,
    {
        let ghost t = ep.steps@.take(i + 1);
        assert(t.drop_last() =~= ep.steps@.take(i as int));
        if ep.steps[i].ok {
            let ghost before = r@;
            r.push((ep.steps[i].tool.clone(), json_clone(&ep.steps[i].args)));
            assert(calls_view(r@) =~= calls_view(before).push(
                (ep.steps@[i as int].tool@, json_view(ep.steps@[i as int].args)),
            ));
        }
        i = i + 1;
    }
    assert(ep.steps@.take(ep.steps@.len() as int) =~= ep.steps@);
    r
}

/// Where an improvement pass stands.
#[derive(Debug, Clone, Copy, PartialEq, Eq, Structural)]
pub enum PassPhase {
    /// Waiting for the risk classes of the current candidate's steps.
    Risks,
    /// Waiting for the sensor checks of a candidate bound for staged rollout.
    SensorChecks,
    /// Waiting for the install of a candidate for staged rollout.
    InstallSupervised,
    /// Waiting for the replay of the current candidate's steps.
    Replay,
    /// Waiting for the configured checks after a successful replay.
    Checks,
    /// Waiting for the install of an approved candidate.
    InstallEnabled,
    /// No candidate is left.
    Done,
}

/// What the caller reports back.
#[derive(Debug)]
pub enum PassEvent {
    /// The risk classes the agent declares for the tools it was asked about.
    Risks(Vec<RiskClass>),
    /// Whether every sensor check it was asked to run passed.
    SensorChecked(bool),
    /// Whether every replayed step succeeded.
    Replayed(bool),
    /// Whether every configured check it was asked to run passed.
    Checked(bool),
    /// Whether the install it was asked for succeeded.
    Installed(bool),
}

/// What the caller does next.
#[derive(Debug)]
pub enum PassAction {
    /// Report the risk classes of these tools, in order.
    AssessRisks { tools: Vec<String> },
    /// Run the sensor checks of these rules and report whether all passed.
    RunSensorChecks { rules: Vec<usize> },
    /// Install the staged manifest for staged rollout.
    InstallSupervised,
    /// Replay these tool calls in order, stopping at the first failure.
    Replay { steps: Vec<(String, JsonValue)> },
    /// Run the checks of these rules after the replay and report whether
    /// all passed.
    RunChecks { rules: Vec<usize> },
    /// Install the staged (approved) manifest, enabled.
    InstallEnabled,
    /// The pass is over; the set of installed skills changed when told so.
    Finish { skills_changed: bool },
    /// The event did not answer what was asked; nothing changed.
    Ignored,
}

/// The state of an improvement pass: its report so far, the skill names
/// taken (installed before the pass or already met in it), the number of
/// learned skills installed, the candidates not yet taken up (the next one
/// last), and the candidate in hand with its exemplar run.
#[derive(Debug)]
pub struct ImprovePass {
    pub report: ImproveReport,
    pub taken: Vec<String>,
    pub learned: usize,
    pub waiting: Vec<(SkillManifest, usize)>,
    pub phase: PassPhase,
    pub staged: Option<SkillManifest>,
    pub exemplar: usize,
}

/// `m` is `cand` approved: enabled, at the autonomous stage.
pub open spec fn approved(cand: SkillManifest, m: SkillManifest) -> bool {
    m == (SkillManifest { enabled: true, stage: RolloutStage::Autonomous, ..cand })
}

/// `m` is `cand` routed to staged rollout: at the `simulate` stage and
/// tagged `track0:supervised` (once), its recipe unchanged.
pub open spec fn supervised_from(cand: SkillManifest, m: SkillManifest) -> bool {
    &&& m.stage == RolloutStage::Simulate
    &&& m.name == cand.name
    &&& m.description == cand.description
    &&& m.kind == cand.kind
    &&& m.parameters == cand.parameters
    &&& m.version == cand.version
    &&& m.timeout_secs == cand.timeout_secs
    &&& exists|i: int| 0 <= i < m.tags@.len() && m.tags@[i]@ == "track0:supervised"@
}

/// What stays true through a pass: the candidate in hand is staged in
/// every phase but `Done`; one that is being verified or installed
/// enabled fits under the cap; the name in hand is taken.
pub open spec fn pass_wf(p: ImprovePass, max_learned: usize) -> bool {
    &&& (p.phase == PassPhase::Done) == (p.staged is None)
    &&& (p.phase == PassPhase::Replay || p.phase == PassPhase::Checks || p.phase
        == PassPhase::InstallEnabled) ==> p.learned < max_learned
    &&& p.phase == PassPhase::Done ==> p.waiting@.len() == 0
    &&& (p.phase == PassPhase::SensorChecks || p.phase == PassPhase::InstallSupervised) ==> (p.staged
        matches Some(m) && m.stage == RolloutStage::Simulate)
    &&& p.phase == PassPhase::InstallEnabled ==> (p.staged matches Some(m) && m.enabled && m.stage
        == RolloutStage::Autonomous)
}

/// Some step of `ep` called one of the tools `names`.
pub open spec fn touches_named(ep: Episode, names: Seq<String>) -> bool {
    exists|i: int, j: int|
        0 <= i < ep.steps@.len() && 0 <= j < names.len() && #[trigger] ep.steps@[i].tool@
            == #[trigger] names[j]@
}

fn names_of(v: &Vec<String>) -> (r: Vec<&str>)
    ensures
        r@.len() == v@.len(),
        forall|k: int| 0 <= k < r@.len() ==> (#[trigger] r@[k])@ == v@[k]@,
{
    let mut r: Vec<&str> = Vec::new();
    let mut i: usize = 0;
    while i < v.len()
        invariant
            i <= v.len(),
            r@.len() == i,
            forall|k: int| 0 <= k < i ==> (#[trigger] r@[k])@ == v@[k]@,
        decreases v.len() - i,
    {
        r.push(v[i].as_str());
        i = i + 1;
    }
    r
}

fn contains_name(v: &Vec<String>, name: &str) -> (b: bool)
    ensures
        b == exists|k: int| 0 <= k < v@.len() && (#[trigger] v@[k])@ == name@,
{
    let mut i: usize = 0;
    while i < v.len()
        invariant
            i <= v.len(),
            forall|k: int| 0 <= k < i ==> (#[trigger] v@[k])@ != name@,
        decreases v.len() - i,
    {
        if crate::text::str_eq(v[i].as_str(), name) {
            return true;
        }
        i = i + 1;
    }
    false
}

fn tools_of(steps: &Vec<(String, JsonValue)>) -> (r: Vec<String>)
    ensures
        r@.map_values(|t: String| t@) == calls_view(steps@).map_values(|c: (Seq<char>, JsonView)| c.0),
{
    let mut r: Vec<String> = Vec::new();
    let mut i: usize = 0;
    while i < steps.len()
        invariant
            i <= steps.len(),
            r@.map_values(|t: String| t@) == calls_view(steps@.take(i as int)).map_values(
                |c: (Seq<char>, JsonView)| c.0,
            ),
        decreases steps.len() - i,
    {
        let ghost before = r@;
        r.push(steps[i].0.clone());
        assert(r@.map_values(|t: String| t@) =~= before.map_values(|t: String| t@).push(steps@[i as int].0@));
        assert(calls_view(steps@.take(i + 1)).map_values(|c: (Seq<char>, JsonView)| c.0) =~= calls_view(
            steps@.take(i as int),
        ).map_values(|c: (Seq<char>, JsonView)| c.0).push(steps@[i as int].0@));
        i = i + 1;
    }
    assert(steps@.take(steps@.len() as int) =~= steps@);
    r
}

impl ImprovePass {
    /// Takes up the next candidate whose name is free, counting those met
    /// on the way (and the taken ones as skipped); asks for the risk classes
    /// of its successful steps, or finishes.
    fn advance(&mut self, episodes: &[Episode]) -> (a: PassAction)
        requires
            old(self).staged is None,
        ensures
            final(self).learned == old(self).learned,
            final(self).report.installed == old(self).report.installed,
            final(self).report.pending_supervised == old(self).report.pending_supervised,
            final(self).report.rejected == old(self).report.rejected,
            final(self).report.episodes_scanned == old(self).report.episodes_scanned,
            final(self).report.candidates >= old(self).report.candidates,
            final(self).report.skipped_existing >= old(self).report.skipped_existing,
            final(self).phase == PassPhase::Risks || final(self).phase == PassPhase::Done,
            final(self).phase == PassPhase::Done ==> final(self).waiting@.len() == 0 && final(self).staged is None
                && a matches PassAction::Finish { .. },
            final(self).phase == PassPhase::Risks ==> final(self).staged is Some && a matches PassAction::AssessRisks { .. },
    {
        loop
            invariant
                self.staged is None,
                self.learned == old(self).learned,
                self.report.installed == old(self).report.installed,
                self.report.pending_supervised == old(self).report.pending_supervised,
                self.report.rejected == old(self).report.rejected,
                self.report.episodes_scanned == old(self).report.episodes_scanned,
                self.report.candidates >= old(self).report.candidates,
                self.report.skipped_existing >= old(self).report.skipped_existing,
            decreases self.waiting@.len(),
        {
            match self.waiting.pop() {
                None => {
                    self.phase = PassPhase::Done;
                    let changed = self.report.installed.len() > 0 || self.report.pending_supervised.len() > 0;
                    return PassAction::Finish { skills_changed: changed };
                },
                Some((cand, ex)) => {
                    if self.report.candidates < usize::MAX {
                        self.report.candidates = self.report.candidates + 1;
                    }
                    if contains_name(&self.taken, cand.name.as_str()) {
                        if self.report.skipped_existing < usize::MAX {
                            self.report.skipped_existing = self.report.skipped_existing + 1;
                        }
                    } else {
                        self.taken.push(cand.name.clone());
                        self.exemplar = ex;
                        self.staged = Some(cand);
                        self.phase = PassPhase::Risks;
                        let tools = if ex < episodes.len() {
                            tools_of(&ok_steps_of(&episodes[ex]))
                        } else {
                            Vec::new()
                        };
                        return PassAction::AssessRisks { tools };
                    }
                },
            }
        }
    }
}

/// Starts an improvement pass over the successful runs `episodes`, given
/// the names of the skills installed already: the candidates are those of
/// [`improvement_candidates`], taken up in order; the learned skills on the
/// cap are the installed names that start with `learned_`.
pub fn begin_pass(improver: &SkillImprover, episodes: &[Episode], existing: Vec<String>) -> (r: (
    ImprovePass,
    PassAction,
))
    ensures
        pass_wf(r.0, improver.max_learned),
        r.0.report.episodes_scanned == episodes@.len(),
        r.0.report.installed@.len() == 0,
        r.0.report.pending_supervised@.len() == 0,
        r.0.report.rejected@.len() == 0,
        r.0.learned <= existing@.len(),
{
    let mut learned: usize = 0;
    let mut i: usize = 0;
    while i < existing.len()
        invariant
            i <= existing.len(),
            learned <= i,
        decreases existing.len() - i,
    {
        if has_prefix(&chars_of(existing[i].as_str()), &chars_of("learned_")) {
            learned = learned + 1;
        }
        i = i + 1;
    }
    let mut cands = improvement_candidates(episodes);
    let mut waiting: Vec<(SkillManifest, usize)> = Vec::new();
    while cands.len() > 0
        invariant
            true,
        decreases cands@.len(),
    {
        match cands.pop() {
            Some(c) => waiting.push(c),
            None => {},
        }
    }
    let mut report = ImproveReport::default();
    report.episodes_scanned = episodes.len();
    let mut pass = ImprovePass {
        report,
        taken: existing,
        learned,
        waiting,
        phase: PassPhase::Done,
        staged: None,
        exemplar: 0,
    };
    let a = pass.advance(episodes);
    (pass, a)
}

/// The phase an event answers.
pub open spec fn answers(phase: PassPhase, event: PassEvent) -> bool {
    match event {
        PassEvent::Risks(_) => phase == PassPhase::Risks,
        PassEvent::SensorChecked(_) => phase == PassPhase::SensorChecks,
        PassEvent::Replayed(_) => phase == PassPhase::Replay,
        PassEvent::Checked(_) => phase == PassPhase::Checks,
        PassEvent::Installed(_) => phase == PassPhase::InstallSupervised || phase
            == PassPhase::InstallEnabled,
    }
}

/// One step of an improvement pass: takes what the caller reports for the
/// candidate in hand and says what to do next.
///
/// With the risk classes of the candidate's successful steps (one each,
/// in order), the candidate is routed by [`route_candidate`]: to staged
/// rollout (tagged by `tag_physical`, after any sensor checks that apply),
/// to rejection at the cap, or to replay and the configured checks. Only a
/// candidate whose replay and every check passed is installed enabled, and
/// then approved; a successful enabled install counts against the cap.
pub fn improve_step(improver: &SkillImprover, episodes: &[Episode], pass: ImprovePass, event: PassEvent) -> (r: (
    ImprovePass,
    PassAction,
))
    requires
        pass_wf(pass, improver.max_learned),
    ensures
        pass_wf(r.0, improver.max_learned),
        r.0.report.episodes_scanned == pass.report.episodes_scanned,
        !answers(pass.phase, event) ==> r.1 is Ignored && r.0 == pass,
        // Only a replayed candidate whose checks all passed is installed
        // enabled, and then as approved.
        r.1 is InstallEnabled ==> ((pass.phase == PassPhase::Replay && event == PassEvent::Replayed(true))
            || (pass.phase == PassPhase::Checks && event == PassEvent::Checked(true))) && approved(
            pass.staged->0,
            r.0.staged->0,
        ),
        // What is installed for staged rollout is the candidate tagged for it.
        r.1 is InstallSupervised ==> r.0.staged is Some && r.0.staged->0.stage == RolloutStage::Simulate
            && ((pass.phase == PassPhase::Risks && supervised_from(pass.staged->0, r.0.staged->0))
            || (pass.phase == PassPhase::SensorChecks && r.0.staged->0.name == pass.staged->0.name)),
        // Replay and checks are reached only under the cap, for a candidate
        // with successful steps that are all safe to replay and no actuator.
        r.1 is Replay ==> pass.phase == PassPhase::Risks && r.0.learned < improver.max_learned
            && (event matches PassEvent::Risks(rs) && rs@.len() > 0 && (forall|k: int|
            0 <= k < rs@.len() ==> spec_safe_to_replay(#[trigger] rs@[k]))) && pass.exemplar
            < episodes@.len() && !touches_named(episodes@[pass.exemplar as int], improver.physical_tools@),
        // The learned count rises by one on a successful enabled install only.
        r.0.learned == if pass.phase == PassPhase::InstallEnabled && event == PassEvent::Installed(true) {
            pass.learned + 1
        } else {
            pass.learned as int
        },
        r.0.learned > pass.learned ==> r.0.learned <= improver.max_learned,
        // The tallies follow the events.
        r.0.report.installed@ == if pass.phase == PassPhase::InstallEnabled && event == PassEvent::Installed(true) {
            pass.report.installed@.push(pass.staged->0.name)
        } else {
            pass.report.installed@
        },
        r.0.report.pending_supervised@ == if pass.phase == PassPhase::InstallSupervised && event
            == PassEvent::Installed(true) {
            pass.report.pending_supervised@.push(pass.staged->0.name)
        } else {
            pass.report.pending_supervised@
        },
        r.0.report.rejected@ == pass.report.rejected@ || r.0.report.rejected@ == pass.report.rejected@.push(
            pass.staged->0.name,
        ),
        pass.phase != PassPhase::Risks ==> r.0.report.rejected@ == if (pass.phase == PassPhase::Replay
            && event == PassEvent::Replayed(false)) || (pass.phase == PassPhase::Checks && event
            == PassEvent::Checked(false)) || (pass.phase == PassPhase::InstallEnabled && event
            == PassEvent::Installed(false)) {
            pass.report.rejected@.push(pass.staged->0.name)
        } else {
            pass.report.rejected@
        },
        r.0.report.candidates >= pass.report.candidates,
        r.0.report.skipped_existing >= pass.report.skipped_existing,
{
    let mut p = pass;
    match event {
        PassEvent::Risks(risks) => {
            if p.phase != PassPhase::Risks {
                return (p, PassAction::Ignored);
            }
            let cand = match p.staged.take() {
                Some(c) => c,
                None => return (p, PassAction::Ignored),
            };
            let ex = p.exemplar;
            let route = if ex < episodes.len() && risks.len() == ok_steps_of(&episodes[ex]).len() {
                let physical = names_of(&improver.physical_tools);
                let r = route_candidate(false, &episodes[ex], &physical, &risks, p.learned, improver.max_learned);
                proof {
                    let ep = episodes@[ex as int];
                    if touches_named(ep, improver.physical_tools@) {
                        let (i, j) = choose|i: int, j: int|
                            0 <= i < ep.steps@.len() && 0 <= j < improver.physical_tools@.len()
                                && #[trigger] ep.steps@[i].tool@ == #[trigger] improver.physical_tools@[j]@;
                        assert(ep.steps@[i].tool@ == physical@[j]@);
                        assert(spec_touches_actuator(ep, physical@));
                    }
                }
                r
            } else {
                CandidateRoute::Supervise
            };
            match route {
                CandidateRoute::Verify => {
                    let steps = ok_steps_of(&episodes[ex]);
                    p.staged = Some(cand);
                    p.phase = PassPhase::Replay;
                    (p, PassAction::Replay { steps })
                },
                CandidateRoute::RejectCapacity | CandidateRoute::SkipExisting => {
                    p.report.rejected.push(cand.name);
                    let a = p.advance(episodes);
                    (p, a)
                },
                CandidateRoute::Supervise => {
                    let supervised = crate::synthesis::tag_physical(cand);
                    let rules = rules_for(&improver.rules, supervised.name.as_str(), true);
                    p.staged = Some(supervised);
                    if rules.len() > 0 {
                        p.phase = PassPhase::SensorChecks;
                        (p, PassAction::RunSensorChecks { rules })
                    } else {
                        p.phase = PassPhase::InstallSupervised;
                        (p, PassAction::InstallSupervised)
                    }
                },
            }
        },
        PassEvent::SensorChecked(ok) => {
            if p.phase != PassPhase::SensorChecks {
                return (p, PassAction::Ignored);
            }
            let mut m = match p.staged.take() {
                Some(m) => m,
                None => return (p, PassAction::Ignored),
            };
            if ok {
                m.tags.push("track0:sensor-verified".to_string());
            }
            p.staged = Some(m);
            p.phase = PassPhase::InstallSupervised;
            (p, PassAction::InstallSupervised)
        },
        PassEvent::Replayed(ok) => {
            if p.phase != PassPhase::Replay {
                return (p, PassAction::Ignored);
            }
            let cand = match p.staged.take() {
                Some(c) => c,
                None => return (p, PassAction::Ignored),
            };
            if !ok {
                p.report.rejected.push(cand.name);
                let a = p.advance(episodes);
                return (p, a);
            }
            let rules = rules_for(&improver.rules, cand.name.as_str(), false);
            if rules.len() > 0 {
                p.staged = Some(cand);
                p.phase = PassPhase::Checks;
                (p, PassAction::RunChecks { rules })
            } else {
                p.staged = Some(crate::synthesis::approve(cand));
                p.phase = PassPhase::InstallEnabled;
                (p, PassAction::InstallEnabled)
            }
        },
        PassEvent::Checked(ok) => {
            if p.phase != PassPhase::Checks {
                return (p, PassAction::Ignored);
            }
            let cand = match p.staged.take() {
                Some(c) => c,
                None => return (p, PassAction::Ignored),
            };
            if ok {
                p.staged = Some(crate::synthesis::approve(cand));
                p.phase = PassPhase::InstallEnabled;
                (p, PassAction::InstallEnabled)
            } else {
                p.report.rejected.push(cand.name);
                let a = p.advance(episodes);
                (p, a)
            }
        },
        PassEvent::Installed(ok) => {
            if p.phase != PassPhase::InstallSupervised && p.phase != PassPhase::InstallEnabled {
                return (p, PassAction::Ignored);
            }
            let m = match p.staged.take() {
                Some(m) => m,
                None => return (p, PassAction::Ignored),
            };
            if p.phase == PassPhase::InstallSupervised {
                if ok {
                    p.report.pending_supervised.push(m.name);
                }
            } else if ok {
                p.report.installed.push(m.name);
                p.learned = p.learned + 1;
            } else {
                p.report.rejected.push(m.name);
            }
            let a = p.advance(episodes);
            (p, a)
        },
    }
}

/// A candidate that reaches verification (and so may be approved and
/// enabled) ran no actuator, has successful steps, and every one of them is
/// safe to replay: a physical skill is never auto-enabled.
pub proof fn lemma_verified_candidates_are_replay_safe(
    name_taken: bool,
    exemplar: Episode,
    physical: Seq<&str>,
    ok_step_risks: Seq<RiskClass>,
    learned_installed: usize,
    max_learned: usize,
)
    requires
        spec_route(name_taken, exemplar, physical, ok_step_risks, learned_installed, max_learned)
            == CandidateRoute::Verify,
    ensures
        !name_taken,
        !spec_touches_actuator(exemplar, physical),
        ok_step_risks.len() > 0,
        forall|k: int| 0 <= k < ok_step_risks.len() ==> spec_safe_to_replay(#[trigger] ok_step_risks[k]),
        forall|k: int| 0 <= k < ok_step_risks.len() ==> !(#[trigger] ok_step_risks[k]).physical,
        learned_installed < max_learned,
{
}

/// Indices of the rules whose pattern matches `name`; with `sensor_only`,
/// only those whose check is a sensor assertion.
pub open spec fn rule_applies(rule: VerificationRule, name: Seq<char>, sensor_only: bool) -> bool {
    spec_pattern_matches(rule.skill_pattern@, name) && (!sensor_only
        || rule.check is SensorAssertion)
}

/// The rules that apply to a candidate named `name`, in configured order.
pub fn rules_for(rules: &[VerificationRule], name: &str, sensor_only: bool) -> (r: Vec<usize>)
    ensures
        forall|k: int| 0 <= k < r@.len() ==> (#[trigger] r@[k]) < rules@.len() && rule_applies(rules@[r@[k] as int], name@, sensor_only),
        forall|q: int| 0 <= q < rules@.len() && rule_applies(#[trigger] rules@[q], name@, sensor_only) ==> r@.contains(q as usize),
        forall|a: int, b: int| 0 <= a < b < r@.len() ==> r@[a] < r@[b],
{
    let mut out: Vec<usize> = Vec::new();
    let mut i: usize = 0;
    while i < rules.len()
        invariant
            i <= rules.len(),
            forall|k: int| 0 <= k < out@.len() ==> (#[trigger] out@[k]) < i && rule_applies(rules@[out@[k] as int], name@, sensor_only),
            forall|q: int| 0 <= q < i && rule_applies(#[trigger] rules@[q], name@, sensor_only) ==> out@.contains(q as usize),
            forall|a: int, b: int| 0 <= a < b < out@.len() ==> out@[a] < out@[b],
        decreases rules.len() - i,
    {
        let applies = pattern_matches(rules[i].skill_pattern.as_str(), name) && (!sensor_only
            || match &rules[i].check {
            VerificationCheck::SensorAssertion { .. } => true,
            _ => false,
        });
        if applies {
            let ghost before = out@;
            out.push(i);
            assert(out@[out@.len() - 1] == i);
            assert forall|q: int| 0 <= q < i + 1 && rule_applies(#[trigger] rules@[q], name@, sensor_only) implies out@.contains(q as usize) by {
                if q < i {
                    assert(before.contains(q as usize));
                    let w = choose|w: int| 0 <= w < before.len() && before[w] == q as usize;
                    assert(out@[w] == q as usize);
                } else {
                    assert(out@[out@.len() - 1] == q as usize);
                }
            }
        }
        i = i + 1;
    }
    out
}


// ── Candidates ───────────────────────────────────────────────────────────────

/// Signature groups: each a tool-chain signature with the indices of the
/// runs sharing it.
pub type SigGroups = Seq<(Seq<char>, Seq<usize>)>;

/// The position of the group keyed `s` among `g[j..]`.
pub open spec fn key_index(g: SigGroups, s: Seq<char>, j: int) -> Option<int>
    decreases g.len() - j,
{
    if j < 0 || j >= g.len() {
        None
    } else if g[j].0 == s {
        Some(j)
    } else {
        key_index(g, s, j + 1)
    }
}

/// Where a group keyed `s` is inserted: before the first group among
/// `g[j..]` whose key sorts after `s` (at the end if none does).
pub open spec fn insertion_point(g: SigGroups, s: Seq<char>, j: int) -> int
    decreases g.len() - j,
{
    if j < 0 || j >= g.len() {
        g.len() as int
    } else if seq_less(s, g[j].0) {
        j
    } else {
        insertion_point(g, s, j + 1)
    }
}

/// `g` with run `i` added to the group keyed `s` (a new group when there is
/// none).
pub open spec fn add_member(g: SigGroups, s: Seq<char>, i: usize) -> SigGroups {
    match key_index(g, s, 0) {
        Some(p) => g.update(p, (s, g[p].1.push(i))),
        None => g.insert(insertion_point(g, s, 0), (s, seq![i])),
    }
}

/// The groups of the runs `0..n` by their non-empty signatures `sigs`, in
/// signature order, each with its runs in order.
pub open spec fn signature_groups_spec(sigs: Seq<Seq<char>>, n: int) -> SigGroups
    decreases n,
{
    if n <= 0 || n > sigs.len() {
        seq![]
    } else if sigs[n - 1].len() == 0 {
        signature_groups_spec(sigs, n - 1)
    } else {
        add_member(signature_groups_spec(sigs, n - 1), sigs[n - 1], (n - 1) as usize)
    }
}

/// The contents of exec signature groups.
pub open spec fn groups_view(g: Seq<(String, Vec<usize>)>) -> SigGroups {
    g.map_values(|e: (String, Vec<usize>)| (e.0@, e.1@))
}

/// The texts of a list of strings.
pub open spec fn texts(v: Seq<String>) -> Seq<Seq<char>> {
    v.map_values(|s: String| s@)
}

/// Groups the runs with signatures `sigs` (see [`signature_groups_spec`]):
/// runs with an empty signature belong to no group.
pub fn signature_groups(sigs: &[String]) -> (r: Vec<(String, Vec<usize>)>)
    ensures
        groups_view(r@) == signature_groups_spec(texts(sigs@), sigs@.len() as int),
{
    let ghost sv = texts(sigs@);
    let mut out: Vec<(String, Vec<usize>)> = Vec::new();
    let mut i: usize = 0;
    while i < sigs.len()
        invariant
            i <= sigs.len(),
            sv == texts(sigs@),
            groups_view(out@) == signature_groups_spec(sv, i as int),
        decreases sigs.len() - i,
    {
        let s = chars_of(sigs[i].as_str());
        assert(sv[i as int] == s@);
        if s.len() > 0 {
            let ghost g = groups_view(out@);
            let mut j: usize = 0;
            let mut found = false;
            while !found && j < out.len()
                invariant
                    j <= out.len(),
                    g == groups_view(out@),
                    found ==> j < out.len() && key_index(g, s@, 0) == Some(j as int),
                    !found ==> key_index(g, s@, 0) == key_index(g, s@, j as int),
                decreases out.len() - j + if found { 0int } else { 1int },
            {
                assert(g[j as int] == (out@[j as int].0@, out@[j as int].1@));
                if chars_eq(&chars_of(out[j].0.as_str()), &s) {
                    found = true;
                } else {
                    j = j + 1;
                }
            }
            if found {
                let ghost before = out@;
                proof {
                    lemma_key_index_range(g, s@, 0);
                }
                let mut entry = out.remove(j);
                entry.1.push(i);
                out.insert(j, entry);
                assert forall|k: int| 0 <= k < out@.len() implies #[trigger] groups_view(out@)[k] == g.update(
                    j as int,
                    (s@, g[j as int].1.push(i)),
                )[k] by {
                    if k != j {
                        assert(out@[k] == before[k]);
                    }
                }
                assert(groups_view(out@) =~= g.update(j as int, (s@, g[j as int].1.push(i))));
            } else {
                assert(key_index(g, s@, 0) is None);
                let mut p: usize = 0;
                let mut stop = false;
                while !stop && p < out.len()
                    invariant
                        p <= out.len(),
                        g == groups_view(out@),
                        stop ==> insertion_point(g, s@, 0) == p as int,
                        !stop ==> insertion_point(g, s@, 0) == insertion_point(g, s@, p as int),
                    decreases out.len() - p + if stop { 0int } else { 1int },
                {
                    assert(g[p as int] == (out@[p as int].0@, out@[p as int].1@));
                    if chars_less(&s, &chars_of(out[p].0.as_str())) {
                        stop = true;
                    } else {
                        p = p + 1;
                    }
                }
                assert(insertion_point(g, s@, 0) == p as int);
                let ghost before = out@;
                let v = vec![i];
                assert(v@ =~= seq![i]);
                out.insert(p, (sigs[i].clone(), v));
                assert forall|k: int| 0 <= k < out@.len() implies #[trigger] groups_view(out@)[k] == g.insert(
                    p as int,
                    (s@, seq![i]),
                )[k] by {
                    if k < p {
                        assert(out@[k] == before[k]);
                    } else if k > p {
                        assert(out@[k] == before[k - 1]);
                    }
                }
                assert(groups_view(out@) =~= g.insert(p as int, (s@, seq![i])));
            }
        }
        i = i + 1;
    }
    out
}

/// The runs `members` of `episodes`.
pub open spec fn member_runs<'a>(episodes: Seq<Episode>, members: Seq<usize>) -> Seq<&'a Episode> {
    members.map_values(|i: usize| &episodes[i as int])
}

/// The signatures of runs.
pub open spec fn signatures(episodes: Seq<Episode>) -> Seq<Seq<char>> {
    episodes.map_values(|e: Episode| spec_chain_signature(e))
}

/// The group candidates among `g[..n]`: for each group of at least two runs
/// that generalizes, its runs and its exemplar (the newest run).
pub open spec fn group_sources(episodes: Seq<Episode>, g: SigGroups, n: int) -> Seq<(Seq<usize>, usize)>
    decreases n,
{
    if n <= 0 || n > g.len() {
        seq![]
    } else {
        let prev = group_sources(episodes, g, n - 1);
        let m = g[n - 1].1;
        let runs = member_runs(episodes, m);
        if m.len() >= 2 && generalizes(runs) {
            prev.push((m, m[newest_index(runs, m.len() as int)]))
        } else {
            prev
        }
    }
}

/// The runs among `episodes[..n]` a skill is synthesized from.
pub open spec fn single_sources(episodes: Seq<Episode>, n: int) -> Seq<usize>
    decreases n,
{
    if n <= 0 || n > episodes.len() {
        seq![]
    } else if synthesizes(episodes[n - 1]) {
        single_sources(episodes, n - 1).push((n - 1) as usize)
    } else {
        single_sources(episodes, n - 1)
    }
}

fn newest_member(episodes: &[Episode], members: &Vec<usize>) -> (r: usize)
    requires
        members@.len() >= 1,
        forall|k: int| 0 <= k < members@.len() ==> (#[trigger] members@[k]) < episodes@.len(),
    ensures
        r == members@[newest_index(member_runs(episodes@, members@), members@.len() as int)],
{
    let ghost runs = member_runs(episodes@, members@);
    let mut b: usize = 0;
    let mut k: usize = 1;
    while k < members.len()
        invariant
            1 <= k <= members.len(),
            runs == member_runs(episodes@, members@),
            forall|q: int| 0 <= q < members@.len() ==> (#[trigger] members@[q]) < episodes@.len(),
            b as int == newest_index(runs, k as int),
            b < k,
        decreases members.len() - k,
    {
        assert(runs[k as int] == &episodes@[members@[k as int] as int]);
        assert(runs[b as int] == &episodes@[members@[b as int] as int]);
        if episodes[members[k]].ts_ms >= episodes[members[b]].ts_ms {
            b = k;
        }
        k = k + 1;
    }
    members[b]
}

/// The improvement candidates from the successful runs `episodes`: first
/// the generalized skill of each signature group (in signature order) with
/// its newest run as exemplar, then the skill synthesized from each run
/// (in run order) with that run as exemplar. The generalized recipe comes
/// first so that it wins a name collision with a one-off recipe.
pub fn improvement_candidates(episodes: &[Episode]) -> (r: Vec<(SkillManifest, usize)>)
    ensures
        ({
            let gs = group_sources(
                episodes@,
                signature_groups_spec(signatures(episodes@), episodes@.len() as int),
                signature_groups_spec(signatures(episodes@), episodes@.len() as int).len() as int,
            );
            let ss = single_sources(episodes@, episodes@.len() as int);
            &&& r@.len() == gs.len() + ss.len()
            &&& forall|k: int|
                0 <= k < gs.len() ==> (#[trigger] r@[k]).1 == gs[k].1 && group_skill(
                    r@[k].0,
                    member_runs(episodes@, gs[k].0),
                )
            &&& forall|k: int|
                0 <= k < ss.len() ==> (#[trigger] r@[gs.len() + k]).1 == ss[k] && episode_skill(
                    r@[gs.len() + k].0,
                    episodes@[ss[k] as int],
                )
        }),
{
    let mut sigs: Vec<String> = Vec::new();
    let mut i: usize = 0;
    while i < episodes.len()
        invariant
            i <= episodes.len(),
            sigs@.len() == i,
            forall|k: int| 0 <= k < i ==> (#[trigger] sigs@[k])@ == spec_chain_signature(episodes@[k]),
        decreases episodes.len() - i,
    {
        sigs.push(chain_signature(&episodes[i]));
        i = i + 1;
    }
    assert(texts(sigs@) =~= signatures(episodes@));
    let groups = signature_groups(&sigs);
    let ghost gv = groups_view(groups@);
    proof {
        lemma_groups_members_in_range(signatures(episodes@), episodes@.len() as int);
    }
    let mut out: Vec<(SkillManifest, usize)> = Vec::new();
    let mut g: usize = 0;
    while g < groups.len()
        invariant
            g <= groups.len(),
            gv == groups_view(groups@),
            gv == signature_groups_spec(signatures(episodes@), episodes@.len() as int),
            forall|a: int, k: int|
                0 <= a < gv.len() && 0 <= k < gv[a].1.len() ==> (#[trigger] gv[a].1[k]) < episodes@.len(),
            out@.len() == group_sources(episodes@, gv, g as int).len(),
            forall|k: int|
                0 <= k < out@.len() ==> (#[trigger] out@[k]).1 == group_sources(episodes@, gv, g as int)[k].1
                    && group_skill(out@[k].0, member_runs(episodes@, group_sources(episodes@, gv, g as int)[k].0)),
        decreases groups.len() - g,
    {
        let members = &groups[g].1;
        assert(gv[g as int].1 == members@);
        if members.len() >= 2 {
            let mut runs: Vec<&Episode> = Vec::new();
            let mut k: usize = 0;
            while k < members.len()
                invariant
                    k <= members.len(),
                    members@ == gv[g as int].1,
                    forall|q: int| 0 <= q < members@.len() ==> (#[trigger] members@[q]) < episodes@.len(),
                    runs@ == member_runs(episodes@, members@).take(k as int),
                decreases members.len() - k,
            {
                assert(members@[k as int] < episodes@.len());
                runs.push(&episodes[members[k]]);
                assert(runs@ =~= member_runs(episodes@, members@).take(k + 1));
                k = k + 1;
            }
            assert(runs@ =~= member_runs(episodes@, members@));
            match parameterize(runs.as_slice()) {
                Some(m) => {
                    let ex = newest_member(episodes, members);
                    out.push((m, ex));
                },
                None => {},
            }
        }
        g = g + 1;
    }
    let ghost gcount = out@.len();
    let mut e: usize = 0;
    while e < episodes.len()
        invariant
            e <= episodes.len(),
            gcount == group_sources(episodes@, gv, gv.len() as int).len(),
            out@.len() == gcount + single_sources(episodes@, e as int).len(),
            forall|k: int|
                0 <= k < gcount ==> (#[trigger] out@[k]).1 == group_sources(episodes@, gv, gv.len() as int)[k].1
                    && group_skill(out@[k].0, member_runs(episodes@, group_sources(episodes@, gv, gv.len() as int)[k].0)),
            forall|k: int|
                0 <= k < single_sources(episodes@, e as int).len() ==> (#[trigger] out@[gcount + k]).1
                    == single_sources(episodes@, e as int)[k] && episode_skill(
                    out@[gcount + k].0,
                    episodes@[single_sources(episodes@, e as int)[k] as int],
                ),
        decreases episodes.len() - e,
    {
        match synthesize(&episodes[e]) {
            Some(m) => {
                out.push((m, e));
            },
            None => {},
        }
        e = e + 1;
    }
    out
}

proof fn lemma_add_member_in_range(g: SigGroups, s: Seq<char>, i: usize, bound: int)
    requires
        i < bound,
        forall|a: int, k: int| 0 <= a < g.len() && 0 <= k < g[a].1.len() ==> (#[trigger] g[a].1[k]) < bound,
    ensures
        forall|a: int, k: int|
            0 <= a < add_member(g, s, i).len() && 0 <= k < add_member(g, s, i)[a].1.len() ==> (
            #[trigger] add_member(g, s, i)[a].1[k]) < bound,
{
    lemma_key_index_range(g, s, 0);
    lemma_insertion_point_range(g, s, 0);
    let h = add_member(g, s, i);
    assert forall|a: int, k: int| 0 <= a < h.len() && 0 <= k < h[a].1.len() implies (#[trigger] h[a].1[k]) < bound by {
        match key_index(g, s, 0) {
            Some(p) => {
                if a == p {
                    if k < g[p].1.len() {
                        assert(h[a].1[k] == g[p].1[k]);
                    }
                } else {
                    assert(h[a] == g[a]);
                }
            },
            None => {
                let q = insertion_point(g, s, 0);
                if a < q {
                    assert(h[a] == g[a]);
                } else if a > q {
                    assert(h[a] == g[a - 1]);
                }
            },
        }
    }
}

proof fn lemma_key_index_range(g: SigGroups, s: Seq<char>, j: int)
    requires
        0 <= j,
    ensures
        key_index(g, s, j) matches Some(p) ==> j <= p < g.len() && g[p].0 == s,
    decreases g.len() - j,
{
    if j < g.len() && g[j].0 != s {
        lemma_key_index_range(g, s, j + 1);
    }
}

proof fn lemma_insertion_point_range(g: SigGroups, s: Seq<char>, j: int)
    requires
        0 <= j,
    ensures
        0 <= insertion_point(g, s, j) <= g.len(),
    decreases g.len() - j,
{
    if j < g.len() && !seq_less(s, g[j].0) {
        lemma_insertion_point_range(g, s, j + 1);
    }
}

proof fn lemma_groups_members_in_range(sigs: Seq<Seq<char>>, n: int)
    requires
        0 <= n <= sigs.len(),
    ensures
        forall|a: int, k: int|
            0 <= a < signature_groups_spec(sigs, n).len() && 0 <= k < signature_groups_spec(sigs, n)[a].1.len()
                ==> (#[trigger] signature_groups_spec(sigs, n)[a].1[k]) < n,
    decreases n,
{
    if n > 0 {
        lemma_groups_members_in_range(sigs, n - 1);
        if sigs[n - 1].len() > 0 {
            lemma_add_member_in_range(signature_groups_spec(sigs, n - 1), sigs[n - 1], (n - 1) as usize, n);
        }
    }
}

/// Signature groups of the runs `0..n` with signatures `sigs` are well
/// formed: keyed by distinct non-empty signatures in ascending order, each
/// with the ascending indices of runs of that signature, and every run with
/// a non-empty signature in some group.
pub open spec fn groups_well_formed(sigs: Seq<Seq<char>>, g: SigGroups, n: int) -> bool {
    &&& forall|a: int, b: int| 0 <= a < b < g.len() ==> seq_less(#[trigger] g[a].0, #[trigger] g[b].0)
    &&& forall|a: int| 0 <= a < g.len() ==> (#[trigger] g[a]).1.len() > 0 && g[a].0.len() > 0
    &&& forall|a: int, k: int|
        0 <= a < g.len() && 0 <= k < g[a].1.len() ==> (#[trigger] g[a].1[k]) < n && sigs[g[a].1[k] as int]
            == g[a].0
    &&& forall|a: int, k1: int, k2: int|
        0 <= a < g.len() && 0 <= k1 < k2 < g[a].1.len() ==> #[trigger] g[a].1[k1] < #[trigger] g[a].1[k2]
    &&& forall|i: int|
        0 <= i < n && (#[trigger] sigs[i]).len() > 0 ==> exists|a: int, k: int|
            0 <= a < g.len() && 0 <= k < g[a].1.len() && #[trigger] g[a].1[k] == i
}

/// Grouping runs by tool-chain signature is what a map from signature to
/// runs, walked in key order, gives: the groups are keyed by distinct
/// non-empty signatures in ascending order, each holds exactly the runs of
/// its signature in run order, and every run with a non-empty signature is
/// in a group.
pub proof fn lemma_signature_groups_well_formed(sigs: Seq<Seq<char>>, n: int)
    requires
        0 <= n <= sigs.len(),
        sigs.len() <= usize::MAX,
    ensures
        groups_well_formed(sigs, signature_groups_spec(sigs, n), n),
    decreases n,
{
    if n > 0 {
        lemma_signature_groups_well_formed(sigs, n - 1);
        let g = signature_groups_spec(sigs, n - 1);
        if sigs[n - 1].len() == 0 {
            assert forall|i: int| 0 <= i < n && (#[trigger] sigs[i]).len() > 0 implies exists|a: int, k: int|
                0 <= a < g.len() && 0 <= k < g[a].1.len() && #[trigger] g[a].1[k] == i by {
                assert(i < n - 1);
            }
        } else {
            lemma_add_member_well_formed(sigs, g, n);
        }
    }
}

proof fn lemma_key_index_none(g: SigGroups, s: Seq<char>, j: int)
    requires
        0 <= j,
        key_index(g, s, j) is None,
    ensures
        forall|q: int| j <= q < g.len() ==> (#[trigger] g[q]).0 != s,
    decreases g.len() - j,
{
    if j < g.len() {
        lemma_key_index_none(g, s, j + 1);
    }
}

proof fn lemma_insertion_point_props(g: SigGroups, s: Seq<char>, j: int)
    requires
        0 <= j <= g.len(),
    ensures
        j <= insertion_point(g, s, j) <= g.len(),
        forall|q: int| j <= q < insertion_point(g, s, j) ==> !seq_less(s, (#[trigger] g[q]).0),
        insertion_point(g, s, j) < g.len() ==> seq_less(s, g[insertion_point(g, s, j)].0),
    decreases g.len() - j,
{
    if j < g.len() && !seq_less(s, g[j].0) {
        lemma_insertion_point_props(g, s, j + 1);
    }
}

proof fn lemma_add_member_well_formed(sigs: Seq<Seq<char>>, g: SigGroups, n: int)
    requires
        0 < n <= sigs.len(),
        sigs.len() <= usize::MAX,
        sigs[n - 1].len() > 0,
        groups_well_formed(sigs, g, n - 1),
    ensures
        groups_well_formed(sigs, add_member(g, sigs[n - 1], (n - 1) as usize), n),
{
    let s = sigs[n - 1];
    let i = (n - 1) as usize;
    assert(i as int == n - 1);
    let h = add_member(g, s, i);
    lemma_key_index_range(g, s, 0);
    match key_index(g, s, 0) {
        Some(p) => {
            assert(h == g.update(p, (s, g[p].1.push(i))));
            assert forall|a: int, b: int| 0 <= a < b < h.len() implies seq_less(#[trigger] h[a].0, #[trigger] h[b].0) by {
                assert(h[a].0 == g[a].0);
                assert(h[b].0 == g[b].0);
            }
            assert forall|a: int| 0 <= a < h.len() implies (#[trigger] h[a]).1.len() > 0 && h[a].0.len() > 0 by {
                if a != p {
                    assert(h[a] == g[a]);
                }
            }
            assert forall|a: int, k: int| 0 <= a < h.len() && 0 <= k < h[a].1.len() implies (#[trigger] h[a].1[k]) < n
                && sigs[h[a].1[k] as int] == h[a].0 by {
                if a != p {
                    assert(h[a] == g[a]);
                } else if k < g[p].1.len() {
                    assert(h[a].1[k] == g[p].1[k]);
                }
            }
            assert forall|a: int, k1: int, k2: int| 0 <= a < h.len() && 0 <= k1 < k2 < h[a].1.len() implies #[trigger] h[a].1[k1]
                < #[trigger] h[a].1[k2] by {
                if a != p {
                    assert(h[a] == g[a]);
                } else {
                    assert(h[a].1[k1] == g[p].1[k1]);
                    if k2 < g[p].1.len() {
                        assert(h[a].1[k2] == g[p].1[k2]);
                    } else {
                        assert(g[p].1[k1] < n - 1);
                    }
                }
            }
            assert forall|j: int| 0 <= j < n && (#[trigger] sigs[j]).len() > 0 implies exists|a: int, k: int|
                0 <= a < h.len() && 0 <= k < h[a].1.len() && #[trigger] h[a].1[k] == j by {
                if j == n - 1 {
                    assert(h[p].1[g[p].1.len() as int] == j);
                } else {
                    let (a, k) = choose|a: int, k: int| 0 <= a < g.len() && 0 <= k < g[a].1.len() && #[trigger] g[a].1[k] == j;
                    if a != p {
                        assert(h[a] == g[a]);
                    }
                    assert(h[a].1[k] == j);
                }
            }
        },
        None => {
            let q = insertion_point(g, s, 0);
            lemma_key_index_none(g, s, 0);
            lemma_insertion_point_props(g, s, 0);
            assert(h == g.insert(q, (s, seq![i])));
            assert forall|a: int| 0 <= a < h.len() implies #[trigger] h[a] == if a < q {
                g[a]
            } else if a == q {
                (s, seq![i])
            } else {
                g[a - 1]
            } by {}
            assert forall|a: int, b: int| 0 <= a < b < h.len() implies seq_less(#[trigger] h[a].0, #[trigger] h[b].0) by {
                if b < q {
                    assert(seq_less(g[a].0, g[b].0));
                } else if b == q {
                    assert(!seq_less(s, g[a].0));
                    assert(g[a].0 != s);
                    lemma_seq_less_total(g[a].0, s);
                } else if a < q {
                    lemma_seq_less_total(g[a].0, s);
                    assert(seq_less(g[a].0, g[b - 1].0));
                } else if a == q {
                    assert(seq_less(s, g[q].0));
                    if b - 1 > q {
                        assert(seq_less(g[q].0, g[b - 1].0));
                        lemma_seq_less_transitive(s, g[q].0, g[b - 1].0);
                    }
                } else {
                    assert(seq_less(g[a - 1].0, g[b - 1].0));
                }
            }
            assert forall|a: int| 0 <= a < h.len() implies (#[trigger] h[a]).1.len() > 0 && h[a].0.len() > 0 by {
                if a < q {
                    assert(h[a] == g[a]);
                } else if a > q {
                    assert(h[a] == g[a - 1]);
                }
            }
            assert forall|a: int, k: int| 0 <= a < h.len() && 0 <= k < h[a].1.len() implies (#[trigger] h[a].1[k]) < n
                && sigs[h[a].1[k] as int] == h[a].0 by {
                if a < q {
                    assert(h[a] == g[a]);
                } else if a > q {
                    assert(h[a] == g[a - 1]);
                }
            }
            assert forall|a: int, k1: int, k2: int| 0 <= a < h.len() && 0 <= k1 < k2 < h[a].1.len() implies #[trigger] h[a].1[k1]
                < #[trigger] h[a].1[k2] by {
                if a < q {
                    assert(h[a] == g[a]);
                } else if a > q {
                    assert(h[a] == g[a - 1]);
                }
            }
            assert forall|j: int| 0 <= j < n && (#[trigger] sigs[j]).len() > 0 implies exists|a: int, k: int|
                0 <= a < h.len() && 0 <= k < h[a].1.len() && #[trigger] h[a].1[k] == j by {
                if j == n - 1 {
                    assert(h[q].1[0] == j);
                } else {
                    let (a, k) = choose|a: int, k: int| 0 <= a < g.len() && 0 <= k < g[a].1.len() && #[trigger] g[a].1[k] == j;
                    if a < q {
                        assert(h[a] == g[a]);
                        assert(h[a].1[k] == j);
                    } else {
                        assert(h[a + 1] == g[a]);
                        assert(h[a + 1].1[k] == j);
                    }
                }
            }
        },
    }
}

} // verus!
