//! Mesh supervisor: the decision core that folds the LoRa mesh into the brain.
//!
//! Each tick derives a per-node health (online / degraded / offline) from the
//! mesh facts, records it when it changes, and for a node that went offline
//! issues a rate-limited recovery command; a node offline long enough is
//! escalated as presumed lost (and no longer pinged), and the escalation is
//! cleared when it comes back.
//!
//! ```text
//! perception            decision                 action
//! mesh.<node>.*  ─►  derive health  ─►  record mesh.<node>.health
//! (world memory)     (online/degraded/    + (if offline) send recovery
//!                     offline)              command via the sink
//! ```

use vstd::prelude::*;

use crate::gateway::NodeCommand;
use crate::json::{json_as_i64, json_as_str, json_get, json_view, JsonValue, JsonView};
use crate::text::{
    chars_eq, chars_of, decimal, extend_str, push_decimal, push_signed_decimal, signed_decimal,
    string_of,
};

verus! {

broadcast use vstd::string::group_string_axioms;

/// Derived health of a mesh node.
#[derive(Debug, Clone, Copy, PartialEq, Eq, Structural)]
pub enum MeshHealth {
    /// Heard recently, last command (if any) succeeded.
    Online,
    /// Heard recently, but the last command result was not ok.
    Degraded,
    /// No mesh message within the staleness window.
    Offline,
}

pub open spec fn health_name(h: MeshHealth) -> Seq<char> {
    match h {
        MeshHealth::Online => "online"@,
        MeshHealth::Degraded => "degraded"@,
        MeshHealth::Offline => "offline"@,
    }
}

impl MeshHealth {
    /// The lowercase name of the health.
    pub fn as_str(self) -> (s: &'static str)
        ensures
            s@ == health_name(self),
    {
        match self {
            MeshHealth::Online => "online",
            MeshHealth::Degraded => "degraded",
            MeshHealth::Offline => "offline",
        }
    }

    /// The health named `s`, if any.
    pub fn parse(s: &str) -> (r: Option<MeshHealth>)
        ensures
            r matches Some(h) ==> health_name(h) == s@,
            r is None ==> s@ != "online"@ && s@ != "degraded"@ && s@ != "offline"@,
    {
        proof {
            reveal_strlit("online");
            reveal_strlit("degraded");
            reveal_strlit("offline");
        }
        let c = chars_of(s);
        if chars_eq(&c, &chars_of("online")) {
            Some(MeshHealth::Online)
        } else if chars_eq(&c, &chars_of("degraded")) {
            Some(MeshHealth::Degraded)
        } else if chars_eq(&c, &chars_of("offline")) {
            Some(MeshHealth::Offline)
        } else {
            None
        }
    }
}

/// Every health reads back from its name.
pub proof fn lemma_health_name_roundtrip(h: MeshHealth, g: MeshHealth)
    ensures
        health_name(h) == health_name(g) ==> h == g,
{
    lemma_health_names_distinct();
}

proof fn lemma_health_names_distinct()
    ensures
        "online"@ != "degraded"@,
        "online"@ != "offline"@,
        "degraded"@ != "offline"@,
{
    reveal_strlit("online");
    reveal_strlit("degraded");
    reveal_strlit("offline");
    assert("online"@.len() == 6);
    assert("degraded"@.len() == 8);
    assert("offline"@.len() == 7);
}

/// Configuration of the supervisor.
#[derive(Debug, Clone, PartialEq, Eq)]
pub struct MeshSupervisorConfig {
    /// Whether the supervisor runs.
    pub enabled: bool,
    /// A node not heard for longer than this (ms) is offline.
    pub stale_ms: u64,
    /// Interval between ticks (ms).
    pub tick_ms: u64,
    /// Command sent to an offline node to recover it (none: observe only).
    pub recover: Option<String>,
    /// Minimum time between two recovery commands to one node (ms).
    pub min_recovery_interval_ms: u64,
    /// Offline time after which a node is presumed lost (ms; 0: never).
    pub escalate_after_ms: u64,
}

/// A per-node snapshot of the facts a decision reads.
#[derive(Debug, Clone, PartialEq, Eq)]
pub struct MeshNodeView {
    pub node: String,
    /// When the node was last heard (ms).
    pub last_seen_ms: u64,
    /// `ok` of the node's latest command result, if any.
    pub last_cmd_ok: Option<bool>,
    /// Previously recorded health (so health is only written on change).
    pub prev_health: Option<MeshHealth>,
    /// When the current recorded health began (ms).
    pub health_since_ms: Option<u64>,
    /// When a recovery command was last sent to this node (ms), if ever.
    pub last_recovery_ms: Option<u64>,
    /// Whether the node is currently escalated (presumed lost).
    pub escalated: bool,
}

/// A supervisor decision to apply.
#[derive(Debug, PartialEq)]
pub enum MeshDecision {
    /// Record the node's derived health (only emitted when it changes).
    Health { node: String, status: MeshHealth, reason: String },
    /// Issue a recovery command to an offline node.
    Recover { node: String, cmd: NodeCommand },
    /// The node has been offline long enough to be presumed lost.
    Escalate { node: String, reason: String },
    /// The node came back after an escalation.
    ClearEscalation { node: String },
}

/// The content of a [`MeshDecision`]; a recovery command always carries an
/// empty argument object.
pub enum DecisionView {
    Health { node: Seq<char>, status: MeshHealth, reason: Seq<char> },
    Recover { node: Seq<char>, to: Seq<char>, id: Seq<char>, cmd: Seq<char> },
    Escalate { node: Seq<char>, reason: Seq<char> },
    ClearEscalation { node: Seq<char> },
}

pub open spec fn is_empty_object(v: JsonValue) -> bool {
    match v {
        JsonValue::Object(fields) => fields@.len() == 0,
        _ => false,
    }
}

impl View for MeshDecision {
    type V = DecisionView;

    open spec fn view(&self) -> DecisionView {
        match self {
            MeshDecision::Health { node, status, reason } => DecisionView::Health {
                node: node@,
                status: *status,
                reason: reason@,
            },
            MeshDecision::Recover { node, cmd } => DecisionView::Recover {
                node: node@,
                to: cmd.to@,
                id: cmd.id@,
                cmd: cmd.cmd@,
            },
            MeshDecision::Escalate { node, reason } => DecisionView::Escalate {
                node: node@,
                reason: reason@,
            },
            MeshDecision::ClearEscalation { node } => DecisionView::ClearEscalation { node: node@ },
        }
    }
}

/// `a - b`, or 0 when `b > a`.
pub open spec fn sat_sub(a: u64, b: u64) -> u64 {
    if a >= b {
        (a - b) as u64
    } else {
        0
    }
}

/// The health a node is derived to have at `now`.
pub open spec fn derived_health(v: MeshNodeView, now: u64, cfg: MeshSupervisorConfig) -> MeshHealth {
    if sat_sub(now, v.last_seen_ms) > cfg.stale_ms {
        MeshHealth::Offline
    } else if v.last_cmd_ok == Some(false) {
        MeshHealth::Degraded
    } else {
        MeshHealth::Online
    }
}

/// Why the node has its derived health.
pub open spec fn health_reason(v: MeshNodeView, now: u64, cfg: MeshSupervisorConfig) -> Seq<char> {
    let age = sat_sub(now, v.last_seen_ms);
    if age > cfg.stale_ms {
        "no mesh message for "@ + decimal(age as nat) + " ms"@
    } else if v.last_cmd_ok == Some(false) {
        "last command result was not ok"@
    } else {
        "healthy"@
    }
}

/// How long an offline node has been offline without a break (ms).
pub open spec fn offline_for(v: MeshNodeView, now: u64) -> u64 {
    let since = if v.prev_health == Some(MeshHealth::Offline) {
        match v.health_since_ms {
            Some(t) => t,
            None => now,
        }
    } else {
        now
    };
    sat_sub(now, since)
}

/// Whether an offline node is escalated at this tick.
pub open spec fn escalates_now(v: MeshNodeView, now: u64, cfg: MeshSupervisorConfig) -> bool {
    cfg.escalate_after_ms > 0 && !v.escalated && offline_for(v, now) >= cfg.escalate_after_ms
}

/// Whether the per-node recovery rate limit has elapsed.
pub open spec fn recovery_due(v: MeshNodeView, now: u64, cfg: MeshSupervisorConfig) -> bool {
    match v.last_recovery_ms {
        None => true,
        Some(t) => sat_sub(now, t) >= cfg.min_recovery_interval_ms,
    }
}

/// Whether an offline node is sent a recovery command at this tick.
pub open spec fn recovers_now(v: MeshNodeView, now: u64, cfg: MeshSupervisorConfig) -> bool {
    derived_health(v, now, cfg) == MeshHealth::Offline && !v.escalated && !escalates_now(v, now, cfg)
        && cfg.recover is Some && recovery_due(v, now, cfg)
}

/// The correlation id of a recovery command: `sup-<node>-<now>`.
pub open spec fn recovery_id(node: Seq<char>, now: u64) -> Seq<char> {
    "sup-"@ + node + "-"@ + decimal(now as nat)
}

/// The decisions for one node, in the order they are applied.
pub open spec fn node_decisions(v: MeshNodeView, now: u64, cfg: MeshSupervisorConfig) -> Seq<
    DecisionView,
> {
    let status = derived_health(v, now, cfg);
    let health: Seq<DecisionView> = if v.prev_health != Some(status) {
        seq![
            DecisionView::Health {
                node: v.node@,
                status,
                reason: health_reason(v, now, cfg),
            },
        ]
    } else {
        seq![]
    };
    if status == MeshHealth::Offline {
        let esc: Seq<DecisionView> = if escalates_now(v, now, cfg) {
            seq![
                DecisionView::Escalate {
                    node: v.node@,
                    reason: "offline for "@ + decimal(offline_for(v, now) as nat)
                        + " ms — presumed lost"@,
                },
            ]
        } else {
            seq![]
        };
        let rec: Seq<DecisionView> = if recovers_now(v, now, cfg) {
            seq![
                DecisionView::Recover {
                    node: v.node@,
                    to: v.node@,
                    id: recovery_id(v.node@, now),
                    cmd: cfg.recover->0@,
                },
            ]
        } else {
            seq![]
        };
        health + esc + rec
    } else if v.escalated {
        health + seq![DecisionView::ClearEscalation { node: v.node@ }]
    } else {
        health
    }
}

/// The decisions for `views[..n]`, node by node.
pub open spec fn all_decisions(views: Seq<MeshNodeView>, n: int, now: u64, cfg: MeshSupervisorConfig) -> Seq<
    DecisionView,
>
    decreases n,
{
    if n <= 0 || n > views.len() {
        seq![]
    } else {
        all_decisions(views, n - 1, now, cfg) + node_decisions(views[n - 1], now, cfg)
    }
}

pub open spec fn decisions_view(d: Seq<MeshDecision>) -> Seq<DecisionView> {
    d.map_values(|x: MeshDecision| x@)
}

fn saturating_sub(a: u64, b: u64) -> (r: u64)
    ensures
        r == sat_sub(a, b),
{
    if a >= b {
        a - b
    } else {
        0
    }
}

fn push_node_decisions(v: &MeshNodeView, now_ms: u64, cfg: &MeshSupervisorConfig, out: &mut Vec<MeshDecision>)
    ensures
        decisions_view(final(out)@) == decisions_view(old(out)@) + node_decisions(*v, now_ms, *cfg),
        forall|i: int|
            old(out)@.len() <= i < final(out)@.len() ==> (#[trigger] final(out)@[i] matches MeshDecision::Recover {
                cmd,
                ..
            } ==> is_empty_object(cmd.args)),
        forall|i: int| 0 <= i < old(out)@.len() ==> final(out)@[i] == old(out)@[i],
{
    proof {
        reveal_strlit("no mesh message for ");
        reveal_strlit(" ms");
        reveal_strlit("last command result was not ok");
        reveal_strlit("healthy");
        reveal_strlit("offline for ");
        reveal_strlit(" ms — presumed lost");
        reveal_strlit("sup-");
        reveal_strlit("-");
    }
    let ghost start = out@;
    let age = saturating_sub(now_ms, v.last_seen_ms);
    let (status, reason) = if age > cfg.stale_ms {
        let mut r = chars_of("no mesh message for ");
        push_decimal(&mut r, age);
        extend_str(&mut r, " ms");
        (MeshHealth::Offline, string_of(&r))
    } else if v.last_cmd_ok == Some(false) {
        (MeshHealth::Degraded, string_of(&chars_of("last command result was not ok")))
    } else {
        (MeshHealth::Online, string_of(&chars_of("healthy")))
    };
    assert(status == derived_health(*v, now_ms, *cfg));
    assert(reason@ == health_reason(*v, now_ms, *cfg));
    let changed = match v.prev_health {
        Some(p) => p != status,
        None => true,
    };
    if changed {
        out.push(MeshDecision::Health { node: v.node.clone(), status, reason });
    }
    let ghost after_health = out@;
    assert(decisions_view(after_health) =~= decisions_view(start) + (if v.prev_health != Some(status) {
        seq![DecisionView::Health { node: v.node@, status, reason: health_reason(*v, now_ms, *cfg) }]
    } else {
        Seq::<DecisionView>::empty()
    }));
    if status == MeshHealth::Offline {
        let offline_since = if v.prev_health == Some(MeshHealth::Offline) {
            match v.health_since_ms {
                Some(t) => t,
                None => now_ms,
            }
        } else {
            now_ms
        };
        let off_for = saturating_sub(now_ms, offline_since);
        assert(off_for == offline_for(*v, now_ms));
        let escalate_now = cfg.escalate_after_ms > 0 && !v.escalated && off_for
            >= cfg.escalate_after_ms;
        if escalate_now {
            let mut r = chars_of("offline for ");
            push_decimal(&mut r, off_for);
            extend_str(&mut r, " ms — presumed lost");
            out.push(MeshDecision::Escalate { node: v.node.clone(), reason: string_of(&r) });
        }
        let ghost after_esc = out@;
        if !v.escalated && !escalate_now {
            match &cfg.recover {
                Some(cmd_name) => {
                    let due = match v.last_recovery_ms {
                        None => true,
                        Some(t) => saturating_sub(now_ms, t) >= cfg.min_recovery_interval_ms,
                    };
                    if due {
                        let mut id = chars_of("sup-");
                        extend_str(&mut id, v.node.as_str());
                        extend_str(&mut id, "-");
                        push_decimal(&mut id, now_ms);
                        let cmd = NodeCommand::new(
                            v.node.clone(),
                            string_of(&id),
                            cmd_name.clone(),
                            JsonValue::Object(Vec::new()),
                        );
                        out.push(MeshDecision::Recover { node: v.node.clone(), cmd });
                    }
                },
                None => {},
            }
        }
        assert(decisions_view(out@) =~= decisions_view(start) + node_decisions(*v, now_ms, *cfg));
    } else if v.escalated {
        out.push(MeshDecision::ClearEscalation { node: v.node.clone() });
        assert(decisions_view(out@) =~= decisions_view(start) + node_decisions(*v, now_ms, *cfg));
    } else {
        assert(decisions_view(out@) =~= decisions_view(start) + node_decisions(*v, now_ms, *cfg));
    }
}

/// The decision core: from per-node views, the time and the configuration,
/// the actions to apply. Health is emitted only when it changes; recovery
/// only for offline nodes that are not escalated, when a recovery command is
/// configured and the per-node rate limit has elapsed.
pub fn decide(views: &[MeshNodeView], now_ms: u64, cfg: &MeshSupervisorConfig) -> (out: Vec<
    MeshDecision,
>)
    ensures
        decisions_view(out@) == all_decisions(views@, views@.len() as int, now_ms, *cfg),
        forall|i: int|
            0 <= i < out@.len() ==> (#[trigger] out@[i] matches MeshDecision::Recover { cmd, .. }
                ==> is_empty_object(cmd.args)),
{
    let mut out: Vec<MeshDecision> = Vec::new();
    let mut i: usize = 0;
    while i < views.len()
        invariant
            i <= views.len(),
            decisions_view(out@) == all_decisions(views@, i as int, now_ms, *cfg),
            forall|j: int|
                0 <= j < out@.len() ==> (#[trigger] out@[j] matches MeshDecision::Recover { cmd, .. }
                    ==> is_empty_object(cmd.args)),
        decreases views.len() - i,
    {
        push_node_decisions(&views[i], now_ms, cfg, &mut out);
        i = i + 1;
    }
    out
}

// ── Laws of the supervisor ───────────────────────────────────────────────────

/// Health is recorded only when it changes: a node whose recorded health
/// equals its derived health gets no health decision.
pub proof fn lemma_no_health_churn(v: MeshNodeView, now: u64, cfg: MeshSupervisorConfig)
    requires
        v.prev_health == Some(derived_health(v, now, cfg)),
    ensures
        forall|i: int|
            0 <= i < node_decisions(v, now, cfg).len() ==> !(#[trigger] node_decisions(v, now, cfg)[i] is Health),
{
}

/// An escalated node is neither escalated again nor pinged.
pub proof fn lemma_escalated_node_left_alone(v: MeshNodeView, now: u64, cfg: MeshSupervisorConfig)
    requires
        v.escalated,
    ensures
        forall|i: int|
            0 <= i < node_decisions(v, now, cfg).len() ==> !(#[trigger] node_decisions(v, now, cfg)[i] is Escalate)
                && !(node_decisions(v, now, cfg)[i] is Recover),
{
}

/// No recovery is ever sent without a configured recovery command, to a node
/// that is not offline, or within the per-node rate limit.
pub proof fn lemma_recovery_needs_command_offline_and_cooldown(
    v: MeshNodeView,
    now: u64,
    cfg: MeshSupervisorConfig,
)
    requires
        cfg.recover is None || derived_health(v, now, cfg) != MeshHealth::Offline || !recovery_due(
            v,
            now,
            cfg,
        ),
    ensures
        forall|i: int|
            0 <= i < node_decisions(v, now, cfg).len() ==> !(#[trigger] node_decisions(v, now, cfg)[i] is Recover),
{
}

/// A node that is escalated at this tick stops being pinged at once.
pub proof fn lemma_escalation_stops_pinging(v: MeshNodeView, now: u64, cfg: MeshSupervisorConfig)
    requires
        derived_health(v, now, cfg) == MeshHealth::Offline,
        escalates_now(v, now, cfg),
    ensures
        exists|i: int|
            0 <= i < node_decisions(v, now, cfg).len() && #[trigger] node_decisions(v, now, cfg)[i] is Escalate,
        forall|i: int|
            0 <= i < node_decisions(v, now, cfg).len() ==> !(#[trigger] node_decisions(v, now, cfg)[i] is Recover),
{
    let h: Seq<DecisionView> = if v.prev_health != Some(MeshHealth::Offline) {
        seq![DecisionView::Health { node: v.node@, status: MeshHealth::Offline, reason: health_reason(v, now, cfg) }]
    } else {
        seq![]
    };
    let k = h.len() as int;
    assert(node_decisions(v, now, cfg)[k] is Escalate);
}

/// An escalation is cleared exactly when a previously escalated node is
/// heard again (not offline).
pub proof fn lemma_clear_on_return(v: MeshNodeView, now: u64, cfg: MeshSupervisorConfig)
    ensures
        (exists|i: int|
            0 <= i < node_decisions(v, now, cfg).len() && #[trigger] node_decisions(v, now, cfg)[i] is ClearEscalation)
            <==> (v.escalated && derived_health(v, now, cfg) != MeshHealth::Offline),
{
    let nd = node_decisions(v, now, cfg);
    if v.escalated && derived_health(v, now, cfg) != MeshHealth::Offline {
        assert(nd[nd.len() - 1] is ClearEscalation);
    }
}

/// The recovery cooldown only holds back recoveries inside it: an offline
/// node that is neither escalated nor escalating now, under a configured
/// recovery command, is pinged again once the interval since its last
/// recovery has passed (or when it has never been sent one).
pub proof fn lemma_offline_node_pinged_after_cooldown(v: MeshNodeView, now: u64, cfg: MeshSupervisorConfig)
    requires
        v.last_seen_ms <= now,
        now - v.last_seen_ms > cfg.stale_ms,
        !v.escalated,
        cfg.escalate_after_ms == 0 || offline_for(v, now) < cfg.escalate_after_ms,
        cfg.recover is Some,
        match v.last_recovery_ms {
            None => true,
            Some(t) => t <= now && now - t >= cfg.min_recovery_interval_ms,
        },
    ensures
        exists|i: int|
            0 <= i < node_decisions(v, now, cfg).len() && #[trigger] node_decisions(v, now, cfg)[i]
                == (DecisionView::Recover {
                node: v.node@,
                to: v.node@,
                id: recovery_id(v.node@, now),
                cmd: cfg.recover->0@,
            }),
{
    let h: Seq<DecisionView> = if v.prev_health != Some(MeshHealth::Offline) {
        seq![DecisionView::Health { node: v.node@, status: MeshHealth::Offline, reason: health_reason(v, now, cfg) }]
    } else {
        seq![]
    };
    let k = h.len() as int;
    assert(node_decisions(v, now, cfg)[k] == (DecisionView::Recover {
        node: v.node@,
        to: v.node@,
        id: recovery_id(v.node@, now),
        cmd: cfg.recover->0@,
    }));
}

/// A node offline for at least the escalation delay (when escalation is on)
/// and not yet escalated is escalated at this tick, and no longer pinged.
pub proof fn lemma_long_offline_node_escalated(v: MeshNodeView, now: u64, cfg: MeshSupervisorConfig)
    requires
        v.last_seen_ms <= now,
        now - v.last_seen_ms > cfg.stale_ms,
        !v.escalated,
        cfg.escalate_after_ms > 0,
        offline_for(v, now) >= cfg.escalate_after_ms,
    ensures
        exists|i: int|
            0 <= i < node_decisions(v, now, cfg).len() && #[trigger] node_decisions(v, now, cfg)[i]
                == (DecisionView::Escalate {
                node: v.node@,
                reason: "offline for "@ + decimal(offline_for(v, now) as nat) + " ms — presumed lost"@,
            }),
        forall|i: int|
            0 <= i < node_decisions(v, now, cfg).len() ==> !(#[trigger] node_decisions(v, now, cfg)[i] is Recover),
{
    let h: Seq<DecisionView> = if v.prev_health != Some(MeshHealth::Offline) {
        seq![DecisionView::Health { node: v.node@, status: MeshHealth::Offline, reason: health_reason(v, now, cfg) }]
    } else {
        seq![]
    };
    let k = h.len() as int;
    assert(node_decisions(v, now, cfg)[k] == (DecisionView::Escalate {
        node: v.node@,
        reason: "offline for "@ + decimal(offline_for(v, now) as nat) + " ms — presumed lost"@,
    }));
}

/// A node is offline once nothing has been heard from it for longer than the
/// stale threshold; otherwise degraded when its last command failed, and
/// online else.
pub proof fn lemma_health_from_silence_and_last_result(v: MeshNodeView, now: u64, cfg: MeshSupervisorConfig)
    requires
        v.last_seen_ms <= now,
    ensures
        now - v.last_seen_ms > cfg.stale_ms ==> derived_health(v, now, cfg) == MeshHealth::Offline,
        now - v.last_seen_ms <= cfg.stale_ms && v.last_cmd_ok == Some(false) ==> derived_health(v, now, cfg)
            == MeshHealth::Degraded,
        now - v.last_seen_ms <= cfg.stale_ms && v.last_cmd_ok != Some(false) ==> derived_health(v, now, cfg)
            == MeshHealth::Online,
{
}

/// A change of health is always reported, first among the node's decisions.
pub proof fn lemma_health_change_reported(v: MeshNodeView, now: u64, cfg: MeshSupervisorConfig)
    requires
        v.prev_health != Some(derived_health(v, now, cfg)),
    ensures
        node_decisions(v, now, cfg).len() > 0,
        node_decisions(v, now, cfg)[0] == (DecisionView::Health {
            node: v.node@,
            status: derived_health(v, now, cfg),
            reason: health_reason(v, now, cfg),
        }),
{
}

/// Every decision for the node at index `k` is among the decisions for
/// `views[..n]` when `k < n`.
proof fn lemma_node_decisions_in_all(
    views: Seq<MeshNodeView>,
    n: int,
    k: int,
    i: int,
    now: u64,
    cfg: MeshSupervisorConfig,
)
    requires
        0 <= k < n <= views.len(),
        0 <= i < node_decisions(views[k], now, cfg).len(),
    ensures
        all_decisions(views, n, now, cfg).contains(node_decisions(views[k], now, cfg)[i]),
    decreases n,
{
    let prev = all_decisions(views, n - 1, now, cfg);
    let last = node_decisions(views[n - 1], now, cfg);
    assert(all_decisions(views, n, now, cfg) == prev + last);
    if k == n - 1 {
        assert((prev + last)[prev.len() + i] == last[i]);
    } else {
        lemma_node_decisions_in_all(views, n - 1, k, i, now, cfg);
        let j = choose|j: int| 0 <= j < prev.len() && prev[j] == node_decisions(views[k], now, cfg)[i];
        assert((prev + last)[j] == prev[j]);
    }
}

/// What `decide` returns pings every offline, non-escalated node whose
/// recovery cooldown has passed: for such a node at index `k`, the decisions
/// hold a recovery command to it with id `sup-<node>-<now>`.
pub proof fn lemma_decide_pings_after_cooldown(
    views: Seq<MeshNodeView>,
    k: int,
    now: u64,
    cfg: MeshSupervisorConfig,
)
    requires
        0 <= k < views.len(),
        views[k].last_seen_ms <= now,
        now - views[k].last_seen_ms > cfg.stale_ms,
        !views[k].escalated,
        cfg.escalate_after_ms == 0 || offline_for(views[k], now) < cfg.escalate_after_ms,
        cfg.recover is Some,
        match views[k].last_recovery_ms {
            None => true,
            Some(t) => t <= now && now - t >= cfg.min_recovery_interval_ms,
        },
    ensures
        all_decisions(views, views.len() as int, now, cfg).contains(
            DecisionView::Recover {
                node: views[k].node@,
                to: views[k].node@,
                id: recovery_id(views[k].node@, now),
                cmd: cfg.recover->0@,
            },
        ),
{
    let v = views[k];
    lemma_offline_node_pinged_after_cooldown(v, now, cfg);
    let i = choose|i: int|
        0 <= i < node_decisions(v, now, cfg).len() && #[trigger] node_decisions(v, now, cfg)[i]
            == (DecisionView::Recover {
            node: v.node@,
            to: v.node@,
            id: recovery_id(v.node@, now),
            cmd: cfg.recover->0@,
        });
    lemma_node_decisions_in_all(views, views.len() as int, k, i, now, cfg);
}

// ── Node views from world facts ──────────────────────────────────────────────

/// The node a world-memory entity is the rollup of: `mesh.<node>` with no
/// further dot, other than the supervisor's own `mesh.escalated_count`.
pub open spec fn spec_mesh_node_of(entity: Seq<char>) -> Option<Seq<char>> {
    if entity.len() >= 5 && entity.take(5) == "mesh."@ && !entity.skip(5).contains('.')
        && entity.skip(5) != "escalated_count"@ {
        Some(entity.skip(5))
    } else {
        None
    }
}

/// The node of a `mesh.<node>` rollup entity, if `entity` is one.
pub fn mesh_node_of(entity: &str) -> (r: Option<String>)
    ensures
        match r {
            Some(n) => spec_mesh_node_of(entity@) == Some(n@),
            None => spec_mesh_node_of(entity@) is None,
        },
{
    proof {
        reveal_strlit("mesh.");
        reveal_strlit("escalated_count");
    }
    let e = chars_of(entity);
    let p = chars_of("mesh.");
    if !crate::text::has_prefix(&e, &p) {
        return None;
    }
    assert(e@.subrange(0, 5) == "mesh."@);
    assert(entity@.take(5) == e@.subrange(0, 5));
    let rest = crate::text::slice_chars(&e, 5, e.len());
    assert(rest@ == entity@.skip(5));
    let mut i: usize = 0;
    while i < rest.len()
        invariant
            i <= rest.len(),
            forall|j: int| 0 <= j < i ==> rest@[j] != '.',
            rest@ == entity@.skip(5),
            entity@.len() >= 5,
            entity@.take(5) == "mesh."@,
        decreases rest.len() - i,
    {
        if rest[i] == '.' {
            assert(rest@.contains('.'));
            return None;
        }
        i = i + 1;
    }
    assert(!rest@.contains('.'));
    if chars_eq(&rest, &chars_of("escalated_count")) {
        return None;
    }
    Some(string_of(&rest))
}

/// The facts about one mesh node that a view is made from.
#[derive(Debug, Clone, PartialEq, Eq)]
pub struct MeshNodeFacts {
    /// The node id.
    pub node: String,
    /// When the node's `mesh.<node>` rollup became valid (ms).
    pub last_seen_ms: u64,
    /// The `ok` field of its latest command result, if any.
    pub cmd_result_ok: Option<bool>,
    /// The `status` field of its recorded health and when that began.
    pub health: Option<(Option<String>, u64)>,
    /// When its latest recovery was recorded (ms).
    pub recovery_ms: Option<u64>,
    /// The `status` field of its escalation record, if any.
    pub escalation_status: Option<String>,
}

/// The view of a node with the given facts.
pub open spec fn facts_view(f: MeshNodeFacts) -> (Option<Option<MeshHealth>>, Option<u64>, bool) {
    (
        match f.health {
            Some((Some(s), _)) => if s@ == "online"@ {
                Some(Some(MeshHealth::Online))
            } else if s@ == "degraded"@ {
                Some(Some(MeshHealth::Degraded))
            } else if s@ == "offline"@ {
                Some(Some(MeshHealth::Offline))
            } else {
                Some(None)
            },
            _ => None,
        },
        match f.health {
            Some((_, t)) => Some(t),
            None => None,
        },
        match f.escalation_status {
            Some(s) => s@ == "escalated"@,
            None => false,
        },
    )
}

fn view_of(f: &MeshNodeFacts) -> (v: MeshNodeView)
    ensures
        v.node@ == f.node@,
        v.last_seen_ms == f.last_seen_ms,
        v.last_cmd_ok == f.cmd_result_ok,
        v.last_recovery_ms == f.recovery_ms,
        v.health_since_ms == facts_view(*f).1,
        v.escalated == facts_view(*f).2,
        match facts_view(*f).0 {
            Some(Some(h)) => v.prev_health == Some(h),
            _ => v.prev_health is None,
        },
{
    proof {
        lemma_health_names_distinct();
    }
    let (prev_health, health_since_ms) = match &f.health {
        Some((status, since)) => {
            let h = match status {
                Some(s) => MeshHealth::parse(s.as_str()),
                None => None,
            };
            (h, Some(*since))
        },
        None => (None, None),
    };
    let escalated = match &f.escalation_status {
        Some(s) => chars_eq(&chars_of(s.as_str()), &chars_of("escalated")),
        None => false,
    };
    MeshNodeView {
        node: f.node.clone(),
        last_seen_ms: f.last_seen_ms,
        last_cmd_ok: f.cmd_result_ok,
        prev_health,
        health_since_ms,
        last_recovery_ms: f.recovery_ms,
        escalated,
    }
}

/// The per-node views for the given node facts, in order.
pub fn snapshot(facts: &[MeshNodeFacts]) -> (views: Vec<MeshNodeView>)
    ensures
        views@.len() == facts@.len(),
        forall|i: int|
            0 <= i < facts@.len() ==> {
                let v = #[trigger] views@[i];
                let f = facts@[i];
                &&& v.node@ == f.node@
                &&& v.last_seen_ms == f.last_seen_ms
                &&& v.last_cmd_ok == f.cmd_result_ok
                &&& v.last_recovery_ms == f.recovery_ms
                &&& v.health_since_ms == facts_view(f).1
                &&& v.escalated == facts_view(f).2
                &&& match facts_view(f).0 {
                    Some(Some(h)) => v.prev_health == Some(h),
                    _ => v.prev_health is None,
                }
            },
{
    let mut views: Vec<MeshNodeView> = Vec::new();
    let mut i: usize = 0;
    while i < facts.len()
        invariant
            i <= facts.len(),
            views@.len() == i,
            forall|k: int|
                0 <= k < i ==> {
                    let v = #[trigger] views@[k];
                    let f = facts@[k];
                    &&& v.node@ == f.node@
                    &&& v.last_seen_ms == f.last_seen_ms
                    &&& v.last_cmd_ok == f.cmd_result_ok
                    &&& v.last_recovery_ms == f.recovery_ms
                    &&& v.health_since_ms == facts_view(f).1
                    &&& v.escalated == facts_view(f).2
                    &&& match facts_view(f).0 {
                        Some(Some(h)) => v.prev_health == Some(h),
                        _ => v.prev_health is None,
                    }
                },
        decreases facts.len() - i,
    {
        let v = view_of(&facts[i]);
        views.push(v);
        i = i + 1;
    }
    views
}

/// The RSSI readings of rollup facts that carry one, in order.
pub open spec fn rssi_values(history: Seq<JsonValue>, n: int) -> Seq<i64>
    decreases n,
{
    if n <= 0 || n > history.len() {
        seq![]
    } else {
        let prev = rssi_values(history, n - 1);
        match json_get(history[n - 1], "rssi_dbm"@) {
            Some(r) => match json_as_i64(r) {
                Some(x) => prev.push(x),
                None => prev,
            },
            None => prev,
        }
    }
}

/// The last `limit` RSSI readings of a node's rollup history (oldest first):
/// facts without an integer `rssi_dbm` are skipped.
pub fn rssi_series(history: &[JsonValue], limit: usize) -> (r: Vec<i64>)
    ensures
        ({
            let all = rssi_values(history@, history@.len() as int);
            r@ == if all.len() > limit {
                all.skip(all.len() - limit)
            } else {
                all
            }
        }),
{
    let mut series: Vec<i64> = Vec::new();
    let mut i: usize = 0;
    while i < history.len()
        invariant
            i <= history.len(),
            series@ == rssi_values(history@, i as int),
        decreases history.len() - i,
    {
        match history[i].get("rssi_dbm") {
            Some(x) => match x.as_i64() {
                Some(n) => series.push(n),
                None => {},
            },
            None => {},
        }
        i = i + 1;
    }
    if series.len() > limit {
        let start = series.len() - limit;
        let mut tail: Vec<i64> = Vec::new();
        let mut j: usize = start;
        while j < series.len()
            invariant
                start <= j <= series.len(),
                tail@ == series@.subrange(start as int, j as int),
            decreases series.len() - j,
        {
            tail.push(series[j]);
            j = j + 1;
        }
        assert(tail@ == series@.skip(start as int));
        tail
    } else {
        series
    }
}


// ── Recording decisions ──────────────────────────────────────────────────────

/// The fact a decision records: its entity and value (a recovery is recorded
/// only once its command was sent).
pub open spec fn decision_fact_view(d: DecisionView, now: u64) -> (Seq<char>, JsonView) {
    let ts = ("ts_ms"@, JsonView::Number(decimal(now as nat)));
    match d {
        DecisionView::Health { node, status, reason } => (
            "mesh."@ + node + ".health"@,
            JsonView::Object(
                seq![("reason"@, JsonView::Str(reason)), ("status"@, JsonView::Str(health_name(status))), ts],
            ),
        ),
        DecisionView::Recover { node, id, cmd, .. } => (
            "mesh."@ + node + ".recovery"@,
            JsonView::Object(seq![("cmd"@, JsonView::Str(cmd)), ("id"@, JsonView::Str(id)), ts]),
        ),
        DecisionView::Escalate { node, reason } => (
            "mesh."@ + node + ".escalation"@,
            JsonView::Object(
                seq![("reason"@, JsonView::Str(reason)), ("status"@, JsonView::Str("escalated"@)), ts],
            ),
        ),
        DecisionView::ClearEscalation { node } => (
            "mesh."@ + node + ".escalation"@,
            JsonView::Object(seq![("status"@, JsonView::Str("cleared"@)), ts]),
        ),
    }
}

fn entity(node: &String, suffix: &str) -> (e: String)
    ensures
        e@ == "mesh."@ + node@ + suffix@,
{
    let mut v = chars_of("mesh.");
    extend_str(&mut v, node.as_str());
    extend_str(&mut v, suffix);
    string_of(&v)
}

fn number_text(n: u64) -> (v: JsonValue)
    ensures
        crate::json::json_view(v) == JsonView::Number(decimal(n as nat)),
{
    let mut t: Vec<char> = Vec::new();
    push_decimal(&mut t, n);
    JsonValue::Number(string_of(&t))
}

/// The fact to record for a decision applied at `now_ms`: a recovery is
/// recorded only once its command was sent (`sent`); every other decision
/// is recorded as it is.
pub fn applied_fact(d: &MeshDecision, now_ms: u64, sent: bool) -> (r: Option<(String, JsonValue)>)
    ensures
        match r {
            None => d is Recover && !sent,
            Some(f) => !(d is Recover && !sent) && (f.0@, crate::json::json_view(f.1))
                == decision_fact_view(d@, now_ms),
        },
{
    match d {
        MeshDecision::Recover { .. } => if !sent {
            return None;
        },
        _ => {},
    }
    Some(decision_fact(d, now_ms))
}

/// The world-memory fact recording a decision at `now_ms`.
pub fn decision_fact(d: &MeshDecision, now_ms: u64) -> (r: (String, JsonValue))
    ensures
        (r.0@, crate::json::json_view(r.1)) == decision_fact_view(d@, now_ms),
{
    let (e, fields) = match d {
        MeshDecision::Health { node, status, reason } => (
            entity(node, ".health"),
            vec![
                ("reason".to_string(), JsonValue::String(reason.clone())),
                ("status".to_string(), JsonValue::String(status.as_str().to_string())),
                ("ts_ms".to_string(), number_text(now_ms)),
            ],
        ),
        MeshDecision::Recover { node, cmd } => (
            entity(node, ".recovery"),
            vec![
                ("cmd".to_string(), JsonValue::String(cmd.cmd.clone())),
                ("id".to_string(), JsonValue::String(cmd.id.clone())),
                ("ts_ms".to_string(), number_text(now_ms)),
            ],
        ),
        MeshDecision::Escalate { node, reason } => (
            entity(node, ".escalation"),
            vec![
                ("reason".to_string(), JsonValue::String(reason.clone())),
                ("status".to_string(), JsonValue::String("escalated".to_string())),
                ("ts_ms".to_string(), number_text(now_ms)),
            ],
        ),
        MeshDecision::ClearEscalation { node } => (
            entity(node, ".escalation"),
            vec![
                ("status".to_string(), JsonValue::String("cleared".to_string())),
                ("ts_ms".to_string(), number_text(now_ms)),
            ],
        ),
    };
    proof {
        crate::json::lemma_fields_index(fields@);
        assert(crate::json::fields_view(fields@, 0) =~= decision_fact_view(d@, now_ms).1->Object_0);
    }
    (e, JsonValue::Object(fields))
}

/// The escalated count to record: the new count, unless it is the one
/// already recorded.
pub fn escalated_count_update(recorded: Option<u64>, count: u64) -> (r: Option<u64>)
    ensures
        r == if recorded == Some(count) {
            None::<u64>
        } else {
            Some(count)
        },
{
    match recorded {
        Some(c) => if c == count {
            None
        } else {
            Some(count)
        },
        None => Some(count),
    }
}


// ── The status document ──────────────────────────────────────────────────────

/// What the mesh status document shows of one node.
#[derive(Debug, PartialEq)]
pub struct MeshStatusInput {
    /// The node's supervisor view.
    pub view: MeshNodeView,
    /// The value of its current `mesh.<node>` rollup fact, if any.
    pub rollup: Option<JsonValue>,
    /// Its recent RSSI readings, oldest first.
    pub rssi_history: Vec<i64>,
}

/// The name of a node's recorded health, `unknown` when none is recorded.
pub open spec fn health_label(h: Option<MeshHealth>) -> Seq<char> {
    match h {
        Some(h) => health_name(h),
        None => "unknown"@,
    }
}

/// The integer `rssi_dbm` member of a rollup.
pub open spec fn rollup_rssi(r: Option<JsonValue>) -> Option<i64> {
    match r {
        Some(v) => match json_get(v, "rssi_dbm"@) {
            Some(x) => json_as_i64(x),
            None => None,
        },
        None => None,
    }
}

/// The string `last_type` member of a rollup, `-` when absent.
pub open spec fn rollup_last_type(r: Option<JsonValue>) -> Seq<char> {
    match r {
        Some(v) => match json_get(v, "last_type"@) {
            Some(x) => match json_as_str(x) {
                Some(t) => t,
                None => "-"@,
            },
            None => "-"@,
        },
        None => "-"@,
    }
}

/// Whole seconds from `since` to `now` (zero when `since` is later).
pub open spec fn age_secs(now: u64, since: u64) -> nat {
    if now >= since {
        ((now - since) / 1000) as nat
    } else {
        0
    }
}

/// A JSON integer.
pub open spec fn int_json(x: i64) -> JsonView {
    JsonView::Number(signed_decimal(x as int))
}

/// The status entry of one node.
pub open spec fn node_status_view(n: MeshStatusInput, now: u64) -> JsonView {
    JsonView::Object(
        seq![
            ("age_s"@, JsonView::Number(decimal(age_secs(now, n.view.last_seen_ms)))),
            ("escalated"@, JsonView::Bool(n.view.escalated)),
            ("health"@, JsonView::Str(health_label(n.view.prev_health))),
            ("last_cmd_ok"@, match n.view.last_cmd_ok {
                Some(b) => JsonView::Bool(b),
                None => JsonView::Null,
            }),
            ("last_type"@, JsonView::Str(rollup_last_type(n.rollup))),
            ("node"@, JsonView::Str(n.view.node@)),
            ("rssi_dbm"@, match rollup_rssi(n.rollup) {
                Some(x) => int_json(x),
                None => JsonView::Null,
            }),
            ("rssi_history"@, JsonView::Array(n.rssi_history@.map_values(|x: i64| int_json(x)))),
        ],
    )
}

/// How many of the first `k` nodes have recorded health `h`.
pub open spec fn count_health(nodes: Seq<MeshStatusInput>, h: MeshHealth, k: int) -> nat
    decreases k,
{
    if k <= 0 || k > nodes.len() {
        0
    } else {
        count_health(nodes, h, k - 1) + if nodes[k - 1].view.prev_health == Some(h) {
            1nat
        } else {
            0nat
        }
    }
}

/// How many of the first `k` nodes are escalated.
pub open spec fn count_escalated(nodes: Seq<MeshStatusInput>, k: int) -> nat
    decreases k,
{
    if k <= 0 || k > nodes.len() {
        0
    } else {
        count_escalated(nodes, k - 1) + if nodes[k - 1].view.escalated {
            1nat
        } else {
            0nat
        }
    }
}

/// The mesh status document: a summary of how many nodes are online,
/// degraded, offline and escalated, one entry per node, and the recent
/// escalations.
pub open spec fn status_view(nodes: Seq<MeshStatusInput>, escalations: Seq<JsonView>, now: u64) -> JsonView {
    let n = nodes.len() as int;
    JsonView::Object(
        seq![
            ("escalations"@, JsonView::Array(escalations)),
            ("nodes"@, JsonView::Array(nodes.map_values(|x: MeshStatusInput| node_status_view(x, now)))),
            ("summary"@, JsonView::Object(
                seq![
                    ("degraded"@, JsonView::Number(decimal(count_health(nodes, MeshHealth::Degraded, n)))),
                    ("escalated"@, JsonView::Number(decimal(count_escalated(nodes, n)))),
                    ("nodes"@, JsonView::Number(decimal(nodes.len()))),
                    ("offline"@, JsonView::Number(decimal(count_health(nodes, MeshHealth::Offline, n)))),
                    ("online"@, JsonView::Number(decimal(count_health(nodes, MeshHealth::Online, n)))),
                ],
            )),
        ],
    )
}

fn int_value(x: i64) -> (v: JsonValue)
    ensures
        json_view(v) == int_json(x),
{
    let mut t: Vec<char> = Vec::new();
    push_signed_decimal(&mut t, x);
    JsonValue::Number(string_of(&t))
}

fn rollup_fields(r: &Option<JsonValue>) -> (out: (Option<i64>, String))
    ensures
        out.0 == rollup_rssi(*r),
        out.1@ == rollup_last_type(*r),
{
    match r {
        Some(v) => {
            let rssi = match v.get("rssi_dbm") {
                Some(x) => x.as_i64(),
                None => None,
            };
            let last_type = match v.get("last_type") {
                Some(x) => match x.as_str() {
                    Some(t) => t.to_string(),
                    None => "-".to_string(),
                },
                None => "-".to_string(),
            };
            (rssi, last_type)
        },
        None => (None, "-".to_string()),
    }
}

fn node_status(n: &MeshStatusInput, now_ms: u64) -> (v: JsonValue)
    ensures
        json_view(v) == node_status_view(*n, now_ms),
{
    let age: u64 = if now_ms >= n.view.last_seen_ms {
        (now_ms - n.view.last_seen_ms) / 1000
    } else {
        0
    };
    let health: &str = match n.view.prev_health {
        Some(h) => h.as_str(),
        None => "unknown",
    };
    let (rssi, last_type) = rollup_fields(&n.rollup);
    let mut history: Vec<JsonValue> = Vec::new();
    let mut j: usize = 0;
    while j < n.rssi_history.len()
        invariant
            j <= n.rssi_history.len(),
            history@.len() == j,
            forall|k: int| 0 <= k < j ==> json_view(#[trigger] history@[k]) == int_json(n.rssi_history@[k]),
        decreases n.rssi_history.len() - j,
    {
        history.push(int_value(n.rssi_history[j]));
        j = j + 1;
    }
    proof {
        crate::json::lemma_items_index(history@);
        assert(crate::json::items_view(history@, 0) =~= n.rssi_history@.map_values(|x: i64| int_json(x)));
    }
    let fields = vec![
        ("age_s".to_string(), number_text(age)),
        ("escalated".to_string(), JsonValue::Bool(n.view.escalated)),
        ("health".to_string(), JsonValue::String(health.to_string())),
        ("last_cmd_ok".to_string(), match n.view.last_cmd_ok {
            Some(b) => JsonValue::Bool(b),
            None => JsonValue::Null,
        }),
        ("last_type".to_string(), JsonValue::String(last_type)),
        ("node".to_string(), JsonValue::String(n.view.node.clone())),
        ("rssi_dbm".to_string(), match rssi {
            Some(x) => int_value(x),
            None => JsonValue::Null,
        }),
        ("rssi_history".to_string(), JsonValue::Array(history)),
    ];
    proof {
        crate::json::lemma_fields_index(fields@);
        assert(crate::json::fields_view(fields@, 0) =~= node_status_view(*n, now_ms)->Object_0);
    }
    JsonValue::Object(fields)
}

/// The mesh status document for `nodes` at `now_ms`, with the recent
/// `escalations` (see [`status_view`]).
pub fn status_document(nodes: &[MeshStatusInput], escalations: Vec<JsonValue>, now_ms: u64) -> (r: JsonValue)
    ensures
        json_view(r) == status_view(nodes@, crate::json::items_view(escalations@, 0), now_ms),
{
    let mut online: u64 = 0;
    let mut degraded: u64 = 0;
    let mut offline: u64 = 0;
    let mut escalated: u64 = 0;
    let mut entries: Vec<JsonValue> = Vec::new();
    let mut i: usize = 0;
    while i < nodes.len()
        invariant
            i <= nodes.len(),
            entries@.len() == i,
            forall|k: int| 0 <= k < i ==> json_view(#[trigger] entries@[k]) == node_status_view(nodes@[k], now_ms),
            online == count_health(nodes@, MeshHealth::Online, i as int),
            degraded == count_health(nodes@, MeshHealth::Degraded, i as int),
            offline == count_health(nodes@, MeshHealth::Offline, i as int),
            escalated == count_escalated(nodes@, i as int),
            online + degraded + offline <= i,
            escalated <= i,
        decreases nodes.len() - i,
    {
        let v = &nodes[i].view;
        match v.prev_health {
            Some(MeshHealth::Online) => online = online + 1,
            Some(MeshHealth::Degraded) => degraded = degraded + 1,
            Some(MeshHealth::Offline) => offline = offline + 1,
            None => {},
        }
        if v.escalated {
            escalated = escalated + 1;
        }
        entries.push(node_status(&nodes[i], now_ms));
        i = i + 1;
    }
    proof {
        crate::json::lemma_items_index(entries@);
        assert(crate::json::items_view(entries@, 0) =~= nodes@.map_values(
            |x: MeshStatusInput| node_status_view(x, now_ms),
        ));
    }
    let summary = vec![
        ("degraded".to_string(), number_text(degraded)),
        ("escalated".to_string(), number_text(escalated)),
        ("nodes".to_string(), number_text(nodes.len() as u64)),
        ("offline".to_string(), number_text(offline)),
        ("online".to_string(), number_text(online)),
    ];
    let ghost n = nodes@.len() as int;
    proof {
        crate::json::lemma_fields_index(summary@);
        assert(crate::json::fields_view(summary@, 0) =~= seq![
            ("degraded"@, JsonView::Number(decimal(count_health(nodes@, MeshHealth::Degraded, n)))),
            ("escalated"@, JsonView::Number(decimal(count_escalated(nodes@, n)))),
            ("nodes"@, JsonView::Number(decimal(nodes@.len()))),
            ("offline"@, JsonView::Number(decimal(count_health(nodes@, MeshHealth::Offline, n)))),
            ("online"@, JsonView::Number(decimal(count_health(nodes@, MeshHealth::Online, n)))),
        ]);
    }
    let ghost esc_view = crate::json::items_view(escalations@, 0);
    let ghost entries_view = crate::json::items_view(entries@, 0);
    let summary_value = JsonValue::Object(summary);
    let top = vec![
        ("escalations".to_string(), JsonValue::Array(escalations)),
        ("nodes".to_string(), JsonValue::Array(entries)),
        ("summary".to_string(), summary_value),
    ];
    proof {
        crate::json::lemma_fields_index(top@);
        assert(json_view(top@[0].1) == JsonView::Array(esc_view));
        assert(json_view(top@[1].1) == JsonView::Array(entries_view));
        assert(crate::json::fields_view(top@, 0) =~= status_view(nodes@, esc_view, now_ms)->Object_0);
    }
    JsonValue::Object(top)
}

} // verus!
