//! Track 0 staged rollout for learned skills.
//!
//! A synthesized skill that can touch the physical world climbs
//! `simulate → supervised → autonomous`. The stage lives in the skill
//! manifest; this module owns the run record (clean runs and failures per
//! skill at its current stage) and the promotion/demotion decisions, gated on
//! that record.
//!
//! Promotion is refused unless the skill has accumulated the required number
//! of clean runs at its current stage with zero failures. Demotion is
//! unconditional down to `simulate`.

use vstd::prelude::*;

use crate::skill::SkillManifest;
use crate::text::{chars_eq, chars_of, extend_str, push_decimal, decimal, string_of};
use crate::track0::{stage_name, stage_next, stage_prev, RolloutStage};

verus! {

broadcast use vstd::string::group_string_axioms;

/// Per-skill run record at its current stage.
#[derive(Debug, Clone, Copy, PartialEq, Eq, Structural)]
pub struct RolloutRecord {
    /// The stage the counts below were accumulated at.
    pub stage: RolloutStage,
    /// Clean (successful) runs at `stage` since the last stage change/reset.
    pub clean_runs: u32,
    /// Failures at `stage` since the last stage change/reset.
    pub failures: u32,
    /// Wall-clock ms of the last recorded run.
    pub last_run_ms: u64,
}

/// A record with no runs at `stage`.
pub open spec fn fresh_record(stage: RolloutStage) -> RolloutRecord {
    RolloutRecord { stage, clean_runs: 0, failures: 0, last_run_ms: 0 }
}

impl Default for RolloutRecord {
    fn default() -> (r: Self)
        ensures
            r == fresh_record(RolloutStage::Simulate),
    {
        RolloutRecord { stage: RolloutStage::Simulate, clean_runs: 0, failures: 0, last_run_ms: 0 }
    }
}

/// The record a new run at `stage` counts on: the existing record when it
/// was kept at `stage`, else a fresh one (a stage change resets the counts).
pub open spec fn base_record(old: Option<RolloutRecord>, stage: RolloutStage) -> RolloutRecord {
    match old {
        Some(r) => if r.stage == stage {
            r
        } else {
            fresh_record(stage)
        },
        None => fresh_record(stage),
    }
}

/// The record after a clean run at `stage` at time `now`.
pub open spec fn after_clean(old: Option<RolloutRecord>, stage: RolloutStage, now: u64) -> RolloutRecord {
    let b = base_record(old, stage);
    RolloutRecord { clean_runs: (b.clean_runs + 1) as u32, last_run_ms: now, ..b }
}

/// The record after a failed run at `stage` at time `now`.
pub open spec fn after_failure(old: Option<RolloutRecord>, stage: RolloutStage, now: u64) -> RolloutRecord {
    let b = base_record(old, stage);
    RolloutRecord { failures: (b.failures + 1) as u32, last_run_ms: now, ..b }
}

/// The record after the runs `runs` (each an outcome, clean or not, and its
/// time), all at `stage`, starting from `old`.
pub open spec fn runs_at(old: Option<RolloutRecord>, stage: RolloutStage, runs: Seq<(bool, u64)>) -> Option<
    RolloutRecord,
>
    decreases runs.len(),
{
    if runs.len() == 0 {
        old
    } else {
        let prev = runs_at(old, stage, runs.drop_last());
        let (clean, t) = runs.last();
        Some(
            if clean {
                after_clean(prev, stage, t)
            } else {
                after_failure(prev, stage, t)
            },
        )
    }
}

/// A clean run counts one more clean run and leaves the failures on record
/// untouched: those kept at `stage`, or none after a stage change.
pub proof fn lemma_clean_run_keeps_failures(old: Option<RolloutRecord>, stage: RolloutStage, now: u64)
    requires
        base_record(old, stage).clean_runs < u32::MAX,
    ensures
        after_clean(old, stage, now).stage == stage,
        after_clean(old, stage, now).failures == (match old {
            Some(r) => if r.stage == stage {
                r.failures
            } else {
                0u32
            },
            None => 0u32,
        }),
        after_clean(old, stage, now).clean_runs == (match old {
            Some(r) => if r.stage == stage {
                r.clean_runs + 1
            } else {
                1int
            },
            None => 1int,
        }),
        after_clean(old, stage, now).last_run_ms == now,
{
}

/// A failed run counts one more failure and leaves the clean runs on record
/// untouched: those kept at `stage`, or none after a stage change.
pub proof fn lemma_failed_run_keeps_clean_runs(old: Option<RolloutRecord>, stage: RolloutStage, now: u64)
    requires
        base_record(old, stage).failures < u32::MAX,
    ensures
        after_failure(old, stage, now).stage == stage,
        after_failure(old, stage, now).clean_runs == (match old {
            Some(r) => if r.stage == stage {
                r.clean_runs
            } else {
                0u32
            },
            None => 0u32,
        }),
        after_failure(old, stage, now).failures == (match old {
            Some(r) => if r.stage == stage {
                r.failures + 1
            } else {
                1int
            },
            None => 1int,
        }),
        after_failure(old, stage, now).last_run_ms == now,
{
}

/// Bounds and the failure flag of the record after `runs` at `stage`.
proof fn lemma_runs_at_counts(old: Option<RolloutRecord>, stage: RolloutStage, runs: Seq<(bool, u64)>)
    requires
        runs.len() > 0,
        base_record(old, stage).clean_runs + runs.len() < u32::MAX,
        base_record(old, stage).failures + runs.len() < u32::MAX,
    ensures
        runs_at(old, stage, runs) is Some,
        runs_at(old, stage, runs)->0.stage == stage,
        runs_at(old, stage, runs)->0.clean_runs <= base_record(old, stage).clean_runs + runs.len(),
        runs_at(old, stage, runs)->0.failures <= base_record(old, stage).failures + runs.len(),
        (exists|i: int| 0 <= i < runs.len() && !(#[trigger] runs[i]).0) ==> runs_at(old, stage, runs)->0.failures
            > 0,
    decreases runs.len(),
{
    let init = runs.drop_last();
    let b = base_record(old, stage);
    if init.len() > 0 {
        lemma_runs_at_counts(old, stage, init);
        let p = runs_at(old, stage, init)->0;
        assert(base_record(runs_at(old, stage, init), stage) == p);
        assert(p.clean_runs + 1 <= b.clean_runs + runs.len());
        assert(p.failures + 1 <= b.failures + runs.len());
        if exists|i: int| 0 <= i < runs.len() && !(#[trigger] runs[i]).0 {
            let i = choose|i: int| 0 <= i < runs.len() && !(#[trigger] runs[i]).0;
            if i < init.len() {
                assert(init[i] == runs[i]);
            }
        }
    }
}

/// A failure at a stage stays on record through any later runs at that
/// stage: once a run has failed, no sequence of clean runs (without a reset
/// or a stage change) lets the skill be promoted from that stage; the
/// promotion is refused for the failures on record.
pub proof fn lemma_failure_blocks_promotion(
    old: Option<RolloutRecord>,
    stage: RolloutStage,
    runs: Seq<(bool, u64)>,
    m: Map<Seq<char>, RolloutRecord>,
    skill: Seq<char>,
    required_clean: u32,
    r: Result<RolloutStage, RolloutError>,
)
    requires
        exists|i: int| 0 <= i < runs.len() && !(#[trigger] runs[i]).0,
        base_record(old, stage).clean_runs + runs.len() < u32::MAX,
        base_record(old, stage).failures + runs.len() < u32::MAX,
        m.get(skill) == runs_at(old, stage, runs),
        promotion_decided(m, skill, stage, required_clean, r),
    ensures
        counts_at(m.get(skill), stage).1 > 0,
        !(r is Ok),
        stage_next(stage) is Some ==> r matches Err(RolloutError::FailuresOnRecord { .. }),
{
    lemma_runs_at_counts(old, stage, runs);
}

/// A run at another stage than the recorded one never inherits its counts:
/// after it, the record holds that one run and nothing else.
pub proof fn lemma_stage_change_resets_counts(r: RolloutRecord, stage: RolloutStage, now: u64)
    requires
        r.stage != stage,
    ensures
        after_clean(Some(r), stage, now) == (RolloutRecord {
            stage,
            clean_runs: 1,
            failures: 0,
            last_run_ms: now,
        }),
        after_failure(Some(r), stage, now) == (RolloutRecord {
            stage,
            clean_runs: 0,
            failures: 1,
            last_run_ms: now,
        }),
{
}

/// The records held in `v`, by skill name.
pub open spec fn entries_map(v: Seq<(String, RolloutRecord)>) -> Map<Seq<char>, RolloutRecord>
    decreases v.len(),
{
    if v.len() == 0 {
        Map::empty()
    } else {
        entries_map(v.drop_last()).insert(v.last().0@, v.last().1)
    }
}

/// No skill name occurs twice in `v`.
pub open spec fn names_distinct(v: Seq<(String, RolloutRecord)>) -> bool {
    forall|i: int, j: int| 0 <= i < j < v.len() ==> v[i].0@ != v[j].0@
}

proof fn lemma_entries_map_at(v: Seq<(String, RolloutRecord)>, i: int)
    requires
        names_distinct(v),
        0 <= i < v.len(),
    ensures
        entries_map(v).contains_key(v[i].0@),
        entries_map(v)[v[i].0@] == v[i].1,
    decreases v.len(),
{
    if i < v.len() - 1 {
        lemma_entries_map_at(v.drop_last(), i);
        assert(v.drop_last()[i] == v[i]);
    }
}

proof fn lemma_entries_map_absent(v: Seq<(String, RolloutRecord)>, k: Seq<char>)
    requires
        forall|i: int| 0 <= i < v.len() ==> v[i].0@ != k,
    ensures
        !entries_map(v).contains_key(k),
    decreases v.len(),
{
    if v.len() > 0 {
        assert forall|i: int| 0 <= i < v.drop_last().len() implies v.drop_last()[i].0@ != k by {
            assert(v.drop_last()[i] == v[i]);
        }
        lemma_entries_map_absent(v.drop_last(), k);
    }
}

proof fn lemma_entries_map_keys(v: Seq<(String, RolloutRecord)>, k: Seq<char>)
    requires
        entries_map(v).contains_key(k),
    ensures
        exists|i: int| 0 <= i < v.len() && v[i].0@ == k,
{
    if forall|i: int| 0 <= i < v.len() ==> v[i].0@ != k {
        lemma_entries_map_absent(v, k);
    }
}

proof fn lemma_entries_map_update(v: Seq<(String, RolloutRecord)>, i: int, e: (String, RolloutRecord))
    requires
        names_distinct(v),
        0 <= i < v.len(),
        e.0@ == v[i].0@,
    ensures
        names_distinct(v.update(i, e)),
        entries_map(v.update(i, e)) == entries_map(v).insert(e.0@, e.1),
{
    let w = v.update(i, e);
    assert(names_distinct(w)) by {
        assert forall|a: int, b: int| 0 <= a < b < w.len() implies w[a].0@ != w[b].0@ by {
            assert(w[a].0@ == v[a].0@);
            assert(w[b].0@ == v[b].0@);
        }
    }
    let m = entries_map(v).insert(e.0@, e.1);
    assert forall|k: Seq<char>| #[trigger] entries_map(w).contains_key(k) <==> m.contains_key(k) by {
        if entries_map(w).contains_key(k) {
            lemma_entries_map_keys(w, k);
            let j = choose|j: int| 0 <= j < w.len() && w[j].0@ == k;
            if j != i {
                lemma_entries_map_at(v, j);
            }
        }
        if m.contains_key(k) && k != e.0@ {
            lemma_entries_map_keys(v, k);
            let j = choose|j: int| 0 <= j < v.len() && v[j].0@ == k;
            lemma_entries_map_at(w, j);
        }
        if k == e.0@ {
            lemma_entries_map_at(w, i);
        }
    }
    assert forall|k: Seq<char>| #[trigger] entries_map(w).contains_key(k) implies entries_map(w)[k]
        == m[k] by {
        lemma_entries_map_keys(w, k);
        let j = choose|j: int| 0 <= j < w.len() && w[j].0@ == k;
        lemma_entries_map_at(w, j);
        if j != i {
            lemma_entries_map_at(v, j);
        }
    }
    assert(entries_map(w) =~= m);
}

proof fn lemma_entries_map_push(v: Seq<(String, RolloutRecord)>, e: (String, RolloutRecord))
    requires
        names_distinct(v),
        forall|i: int| 0 <= i < v.len() ==> v[i].0@ != e.0@,
    ensures
        names_distinct(v.push(e)),
        entries_map(v.push(e)) == entries_map(v).insert(e.0@, e.1),
{
    assert(v.push(e).drop_last() == v);
}

/// The file that holds the run records inside `dir`.
pub open spec fn tracker_file_in(dir: Seq<char>) -> Seq<char> {
    if dir.len() == 0 {
        "skill_rollout.json"@
    } else if dir.last() == '/' {
        dir + "skill_rollout.json"@
    } else {
        dir + "/skill_rollout.json"@
    }
}

/// Clean-run/failure record per skill, with the file it is kept in.
#[derive(Debug)]
pub struct RolloutTracker {
    path: String,
    entries: Vec<(String, RolloutRecord)>,
}

impl View for RolloutTracker {
    type V = Map<Seq<char>, RolloutRecord>;

    closed spec fn view(&self) -> Map<Seq<char>, RolloutRecord> {
        entries_map(self.entries@)
    }
}

/// Wall-clock milliseconds since the Unix epoch (0 if the clock reads before
/// the epoch). Calls `std::time::SystemTime::now`; nothing is promised of the
/// value, which depends on the machine's clock.
#[verifier::external_body]
fn now_ms() -> (ms: u64) {
    std::time::SystemTime::now().duration_since(std::time::UNIX_EPOCH).map(|d| d.as_millis() as u64).unwrap_or(0)
}

impl RolloutTracker {
    #[verifier::type_invariant]
    closed spec fn names_unique(&self) -> bool {
        names_distinct(self.entries@)
    }

    pub closed spec fn spec_path(&self) -> Seq<char> {
        self.path@
    }

    /// An empty record kept at `path`.
    pub fn new(path: String) -> (t: Self)
        ensures
            t@ == Map::<Seq<char>, RolloutRecord>::empty(),
            t.spec_path() == path@,
    {
        RolloutTracker { path, entries: Vec::new() }
    }

    /// A copy of the record, kept at the same path (to try a change on it
    /// before committing to it).
    pub fn snapshot(&self) -> (t: Self)
        ensures
            t@ == self@,
            t.spec_path() == self.spec_path(),
    {
        proof {
            use_type_invariant(self);
        }
        let mut entries: Vec<(String, RolloutRecord)> = Vec::new();
        let mut i: usize = 0;
        while i < self.entries.len()
            invariant
                i <= self.entries.len(),
                entries@ == self.entries@.take(i as int),
            decreases self.entries.len() - i,
        {
            entries.push((self.entries[i].0.clone(), self.entries[i].1));
            assert(entries@ =~= self.entries@.take(i + 1));
            i = i + 1;
        }
        assert(self.entries@.take(self.entries@.len() as int) =~= self.entries@);
        RolloutTracker { path: self.path.clone(), entries }
    }

    /// The file the record is kept in.
    pub fn path(&self) -> (p: &str)
        ensures
            p@ == self.spec_path(),
    {
        self.path.as_str()
    }

    fn position(&self, skill: &[char]) -> (r: Option<usize>)
        ensures
            match r {
                Some(i) => i < self.entries.len() && self.entries@[i as int].0@ == skill@,
                None => forall|j: int| 0 <= j < self.entries.len() ==> self.entries@[j].0@ != skill@,
            },
    {
        let mut i: usize = 0;
        while i < self.entries.len()
            invariant
                i <= self.entries.len(),
                forall|j: int| 0 <= j < i ==> self.entries@[j].0@ != skill@,
            decreases self.entries.len() - i,
        {
            let c = chars_of(self.entries[i].0.as_str());
            if chars_eq(&c, skill) {
                return Some(i);
            }
            i = i + 1;
        }
        None
    }

    /// Sets the record of `skill` to `rec`.
    fn put(&mut self, skill: &str, rec: RolloutRecord)
        ensures
            final(self)@ == old(self)@.insert(skill@, rec),
            final(self).spec_path() == old(self).spec_path(),
    {
        proof {
            use_type_invariant(&*self);
        }
        let k = chars_of(skill);
        let pos = self.position(&k);
        let mut entries: Vec<(String, RolloutRecord)> = Vec::new();
        std::mem::swap(&mut entries, &mut self.entries);
        let ghost v = entries@;
        match pos {
            Some(i) => {
                let name = entries[i].0.clone();
                proof {
                    lemma_entries_map_update(v, i as int, (name, rec));
                }
                entries.set(i, (name, rec));
            },
            None => {
                let name = skill.to_string();
                proof {
                    lemma_entries_map_push(v, (name, rec));
                }
                entries.push((name, rec));
            },
        }
        self.entries = entries;
    }

    /// Restores the stored record of `skill` (used when loading a saved record).
    pub fn restore(&mut self, skill: &str, rec: RolloutRecord)
        ensures
            final(self)@ == old(self)@.insert(skill@, rec),
            final(self).spec_path() == old(self).spec_path(),
    {
        self.put(skill, rec);
    }

    /// The record for `skill`, if any.
    pub fn record(&self, skill: &str) -> (r: Option<RolloutRecord>)
        ensures
            r == self@.get(skill@),
    {
        proof {
            use_type_invariant(self);
        }
        let k = chars_of(skill);
        match self.position(&k) {
            Some(i) => {
                proof {
                    lemma_entries_map_at(self.entries@, i as int);
                }
                Some(self.entries[i].1)
            },
            None => {
                proof {
                    lemma_entries_map_absent(self.entries@, skill@);
                }
                None
            },
        }
    }

    /// Records a clean run of `skill` at `stage`, made at time `now`. If the
    /// recorded stage differs, the counts reset first.
    pub fn record_clean_at(&mut self, skill: &str, stage: RolloutStage, now: u64)
        requires
            base_record(old(self)@.get(skill@), stage).clean_runs < u32::MAX,
        ensures
            final(self)@ == old(self)@.insert(skill@, after_clean(old(self)@.get(skill@), stage, now)),
            final(self)@[skill@].stage == stage,
            final(self)@[skill@].clean_runs == base_record(old(self)@.get(skill@), stage).clean_runs + 1,
            final(self)@[skill@].failures == base_record(old(self)@.get(skill@), stage).failures,
            final(self)@[skill@].last_run_ms == now,
            final(self).spec_path() == old(self).spec_path(),
    {
        let prev = self.record(skill);
        let base = match prev {
            Some(r) => if r.stage == stage {
                r
            } else {
                RolloutRecord { stage, clean_runs: 0, failures: 0, last_run_ms: 0 }
            },
            None => RolloutRecord { stage, clean_runs: 0, failures: 0, last_run_ms: 0 },
        };
        let rec = RolloutRecord { clean_runs: base.clean_runs + 1, last_run_ms: now, ..base };
        self.put(skill, rec);
    }

    /// Records a failed run of `skill` at `stage`, made at time `now` (same
    /// stage-reset rule).
    pub fn record_failure_at(&mut self, skill: &str, stage: RolloutStage, now: u64)
        requires
            base_record(old(self)@.get(skill@), stage).failures < u32::MAX,
        ensures
            final(self)@ == old(self)@.insert(skill@, after_failure(old(self)@.get(skill@), stage, now)),
            final(self)@[skill@].stage == stage,
            final(self)@[skill@].clean_runs == base_record(old(self)@.get(skill@), stage).clean_runs,
            final(self)@[skill@].failures == base_record(old(self)@.get(skill@), stage).failures + 1,
            final(self)@[skill@].last_run_ms == now,
            final(self).spec_path() == old(self).spec_path(),
    {
        let prev = self.record(skill);
        let base = match prev {
            Some(r) => if r.stage == stage {
                r
            } else {
                RolloutRecord { stage, clean_runs: 0, failures: 0, last_run_ms: 0 }
            },
            None => RolloutRecord { stage, clean_runs: 0, failures: 0, last_run_ms: 0 },
        };
        let rec = RolloutRecord { failures: base.failures + 1, last_run_ms: now, ..base };
        self.put(skill, rec);
    }

    /// Records a clean run of `skill` at `stage`, stamped with the clock.
    pub fn record_clean(&mut self, skill: &str, stage: RolloutStage)
        requires
            base_record(old(self)@.get(skill@), stage).clean_runs < u32::MAX,
        ensures
            final(self)@ == old(self)@.insert(
                skill@,
                after_clean(old(self)@.get(skill@), stage, final(self)@[skill@].last_run_ms),
            ),
            final(self).spec_path() == old(self).spec_path(),
    {
        let now = now_ms();
        self.record_clean_at(skill, stage, now);
    }

    /// Records a failed run of `skill` at `stage`, stamped with the clock.
    pub fn record_failure(&mut self, skill: &str, stage: RolloutStage)
        requires
            base_record(old(self)@.get(skill@), stage).failures < u32::MAX,
        ensures
            final(self)@ == old(self)@.insert(
                skill@,
                after_failure(old(self)@.get(skill@), stage, final(self)@[skill@].last_run_ms),
            ),
            final(self).spec_path() == old(self).spec_path(),
    {
        let now = now_ms();
        self.record_failure_at(skill, stage, now);
    }

    /// Resets the record for `skill` to a fresh count at `stage` (after a
    /// stage change, or by the operator to clear failures).
    pub fn reset(&mut self, skill: &str, stage: RolloutStage)
        ensures
            final(self)@ == old(self)@.insert(skill@, fresh_record(stage)),
            final(self).spec_path() == old(self).spec_path(),
    {
        self.put(skill, RolloutRecord { stage, clean_runs: 0, failures: 0, last_run_ms: 0 });
    }

    /// All records, one entry per skill.
    pub fn all(&self) -> (r: Vec<(String, RolloutRecord)>)
        ensures
            names_distinct(r@),
            entries_map(r@) == self@,
    {
        proof {
            use_type_invariant(self);
        }
        let mut out: Vec<(String, RolloutRecord)> = Vec::new();
        let mut i: usize = 0;
        while i < self.entries.len()
            invariant
                i <= self.entries.len(),
                out.len() == i,
                forall|j: int| 0 <= j < i ==> (#[trigger] out@[j]).0@ == self.entries@[j].0@
                    && out@[j].1 == self.entries@[j].1,
            decreases self.entries.len() - i,
        {
            let name = self.entries[i].0.clone();
            out.push((name, self.entries[i].1));
            i = i + 1;
        }
        proof {
            lemma_entries_map_same_keys(out@, self.entries@);
        }
        out
    }
}

proof fn lemma_entries_map_same_keys(a: Seq<(String, RolloutRecord)>, b: Seq<(String, RolloutRecord)>)
    requires
        a.len() == b.len(),
        forall|j: int| 0 <= j < a.len() ==> (#[trigger] a[j]).0@ == b[j].0@ && a[j].1 == b[j].1,
    ensures
        entries_map(a) == entries_map(b),
        names_distinct(b) ==> names_distinct(a),
    decreases a.len(),
{
    if a.len() > 0 {
        lemma_entries_map_same_keys(a.drop_last(), b.drop_last());
    }
}

/// The tracker for the record file inside `dir`, starting empty.
pub fn tracker_in(dir: &str) -> (t: RolloutTracker)
    ensures
        t@ == Map::<Seq<char>, RolloutRecord>::empty(),
        t.spec_path() == tracker_file_in(dir@),
{
    proof {
        reveal_strlit("skill_rollout.json");
        reveal_strlit("/skill_rollout.json");
    }
    let d = chars_of(dir);
    let mut p = chars_of(dir);
    if d.len() == 0 {
        p = chars_of("skill_rollout.json");
    } else if d[d.len() - 1] == '/' {
        extend_str(&mut p, "skill_rollout.json");
    } else {
        extend_str(&mut p, "/skill_rollout.json");
    }
    RolloutTracker::new(string_of(&p))
}

// ── Promotion and demotion ───────────────────────────────────────────────────

/// Why a stage change was refused.
#[derive(Debug, Clone, PartialEq, Eq)]
pub enum RolloutError {
    /// The skill is already at the top stage.
    AlreadyAutonomous { skill: String },
    /// The skill is already at the bottom stage.
    AtLowestStage { skill: String },
    /// Failures are on record at the current stage.
    FailuresOnRecord { skill: String, failures: u32, stage: RolloutStage },
    /// Too few clean runs at the current stage.
    NotEnoughCleanRuns { skill: String, clean: u32, required: u32, stage: RolloutStage },
}

/// The (clean runs, failures) that count at `current`: those of a record
/// kept at `current`, else none.
pub open spec fn counts_at(rec: Option<RolloutRecord>, current: RolloutStage) -> (u32, u32) {
    match rec {
        Some(r) => if r.stage == current {
            (r.clean_runs, r.failures)
        } else {
            (0, 0)
        },
        None => (0, 0),
    }
}

/// The message shown for a refused stage change.
pub open spec fn rollout_error_message(e: RolloutError) -> Seq<char> {
    match e {
        RolloutError::AlreadyAutonomous { skill } => "'"@ + skill@ + "' is already autonomous"@,
        RolloutError::AtLowestStage { skill } => "'"@ + skill@
            + "' is already at the lowest stage (simulate)"@,
        RolloutError::FailuresOnRecord { skill, failures, stage } => "'"@ + skill@ + "' has "@
            + decimal(failures as nat) + " failure(s) on record at stage "@ + stage_name(stage)
            + " — investigate, then `skill reset-record` to re-earn a clean record"@,
        RolloutError::NotEnoughCleanRuns { skill, clean, required, stage } => "'"@ + skill@
            + "' has "@ + decimal(clean as nat) + "/"@ + decimal(required as nat)
            + " clean runs at stage "@ + stage_name(stage)
            + " — promotion refused (Track 0: promotion is gated on a clean record)"@,
    }
}

impl RolloutError {
    /// The human-readable message.
    pub fn message(&self) -> (s: String)
        ensures
            s@ == rollout_error_message(*self),
    {
        match self {
            RolloutError::AlreadyAutonomous { skill } => {
                let mut v = chars_of("'");
                extend_str(&mut v, skill.as_str());
                extend_str(&mut v, "' is already autonomous");
                string_of(&v)
            },
            RolloutError::AtLowestStage { skill } => {
                let mut v = chars_of("'");
                extend_str(&mut v, skill.as_str());
                extend_str(&mut v, "' is already at the lowest stage (simulate)");
                string_of(&v)
            },
            RolloutError::FailuresOnRecord { skill, failures, stage } => {
                let mut v = chars_of("'");
                extend_str(&mut v, skill.as_str());
                extend_str(&mut v, "' has ");
                push_decimal(&mut v, *failures as u64);
                extend_str(&mut v, " failure(s) on record at stage ");
                let st = stage.as_str();
                extend_str(&mut v, st.as_str());
                extend_str(
                    &mut v,
                    " — investigate, then `skill reset-record` to re-earn a clean record",
                );
                string_of(&v)
            },
            RolloutError::NotEnoughCleanRuns { skill, clean, required, stage } => {
                let mut v = chars_of("'");
                extend_str(&mut v, skill.as_str());
                extend_str(&mut v, "' has ");
                push_decimal(&mut v, *clean as u64);
                extend_str(&mut v, "/");
                push_decimal(&mut v, *required as u64);
                extend_str(&mut v, " clean runs at stage ");
                let st = stage.as_str();
                extend_str(&mut v, st.as_str());
                extend_str(
                    &mut v,
                    " — promotion refused (Track 0: promotion is gated on a clean record)",
                );
                string_of(&v)
            },
        }
    }
}

/// `r` is the promotion decision for `skill`, currently at `current`, on
/// the record `m` (see [`promote`]).
pub open spec fn promotion_decided(
    m: Map<Seq<char>, RolloutRecord>,
    skill: Seq<char>,
    current: RolloutStage,
    required_clean: u32,
    r: Result<RolloutStage, RolloutError>,
) -> bool {
    let (clean, failures) = counts_at(m.get(skill), current);
    match r {
        Ok(next) => stage_next(current) == Some(next) && failures == 0 && clean >= required_clean,
        Err(RolloutError::AlreadyAutonomous { skill: s }) => s@ == skill && stage_next(current) is None,
        Err(RolloutError::FailuresOnRecord { skill: s, failures: f, stage }) => s@ == skill
            && stage_next(current) is Some && f == failures && failures > 0 && stage == current,
        Err(RolloutError::NotEnoughCleanRuns { skill: s, clean: c, required, stage }) => s@ == skill
            && stage_next(current) is Some && failures == 0 && c == clean && required == required_clean
            && clean < required_clean && stage == current,
        Err(RolloutError::AtLowestStage { .. }) => false,
    }
}

/// `r` is the demotion decision for `skill`, currently at `current` (see
/// [`demote`]).
pub open spec fn demotion_decided(skill: Seq<char>, current: RolloutStage, r: Result<RolloutStage, RolloutError>) -> bool {
    match r {
        Ok(prev) => stage_prev(current) == Some(prev),
        Err(RolloutError::AtLowestStage { skill: s }) => s@ == skill && current == RolloutStage::Simulate,
        Err(_) => false,
    }
}

/// Decides the promotion of `skill`, currently at `current`, one stage up.
/// It is refused unless the skill has at least `required_clean` clean runs
/// at its current stage and no failures on record there. On success the
/// caller rewrites the manifest at the returned stage and resets the record.
pub fn promote(tracker: &RolloutTracker, skill: &str, current: RolloutStage, required_clean: u32) -> (r:
    Result<RolloutStage, RolloutError>)
    ensures
        promotion_decided(tracker@, skill@, current, required_clean, r),
{
    let next = match current.next() {
        Some(n) => n,
        None => {
            return Err(RolloutError::AlreadyAutonomous { skill: skill.to_string() });
        },
    };
    let rec = tracker.record(skill);
    let (clean, failures) = match rec {
        Some(r) => if r.stage == current {
            (r.clean_runs, r.failures)
        } else {
            (0, 0)
        },
        None => (0, 0),
    };
    if failures > 0 {
        return Err(
            RolloutError::FailuresOnRecord { skill: skill.to_string(), failures, stage: current },
        );
    }
    if clean < required_clean {
        return Err(
            RolloutError::NotEnoughCleanRuns {
                skill: skill.to_string(),
                clean,
                required: required_clean,
                stage: current,
            },
        );
    }
    Ok(next)
}

/// Decides the demotion of `skill`, currently at `current`, one stage down:
/// unconditional, except that nothing is below `simulate`.
pub fn demote(skill: &str, current: RolloutStage) -> (r: Result<RolloutStage, RolloutError>)
    ensures
        demotion_decided(skill@, current, r),
{
    match current.prev() {
        Some(p) => Ok(p),
        None => Err(RolloutError::AtLowestStage { skill: skill.to_string() }),
    }
}

/// Promotes the skill `manifest` describes one stage up, gated on its run
/// record (see [`promote`]). On success the manifest takes the new stage
/// and the skill's record restarts there, empty; on refusal both stay as
/// they were.
pub fn promote_skill(tracker: &mut RolloutTracker, manifest: &mut SkillManifest, required_clean: u32) -> (r: Result<
    RolloutStage,
    RolloutError,
>)
    ensures
        promotion_decided(old(tracker)@, old(manifest).name@, old(manifest).stage, required_clean, r),
        final(tracker).spec_path() == old(tracker).spec_path(),
        match r {
            Ok(next) => *final(manifest) == (SkillManifest { stage: next, ..*old(manifest) })
                && final(tracker)@ == old(tracker)@.insert(old(manifest).name@, fresh_record(next)),
            Err(_) => *final(manifest) == *old(manifest) && final(tracker)@ == old(tracker)@,
        },
{
    let r = promote(tracker, manifest.name.as_str(), manifest.stage, required_clean);
    if let Ok(next) = r {
        manifest.stage = next;
        tracker.reset(manifest.name.as_str(), next);
    }
    r
}

/// Demotes the skill `manifest` describes one stage down (see [`demote`]).
/// On success the manifest takes the lower stage and the skill's record
/// restarts there, empty; at `simulate` both stay as they were.
pub fn demote_skill(tracker: &mut RolloutTracker, manifest: &mut SkillManifest) -> (r: Result<
    RolloutStage,
    RolloutError,
>)
    ensures
        demotion_decided(old(manifest).name@, old(manifest).stage, r),
        final(tracker).spec_path() == old(tracker).spec_path(),
        match r {
            Ok(prev) => *final(manifest) == (SkillManifest { stage: prev, ..*old(manifest) })
                && final(tracker)@ == old(tracker)@.insert(old(manifest).name@, fresh_record(prev)),
            Err(_) => *final(manifest) == *old(manifest) && final(tracker)@ == old(tracker)@,
        },
{
    let r = demote(manifest.name.as_str(), manifest.stage);
    if let Ok(prev) = r {
        manifest.stage = prev;
        tracker.reset(manifest.name.as_str(), prev);
    }
    r
}

/// A promotion granted on a record is always one step, and a fresh record
/// at the new stage can only be promoted again when no clean runs are
/// required.
pub proof fn lemma_promotion_restarts_the_count(current: RolloutStage, next: RolloutStage, required: u32)
    requires
        stage_next(current) == Some(next),
    ensures
        counts_at(Some(fresh_record(next)), next) == (0u32, 0u32),
        required > 0 ==> counts_at(Some(fresh_record(next)), next).0 < required,
{
}

} // verus!
