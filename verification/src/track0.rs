//! Track 0 vocabulary: the physical-risk profile of a tool, the staged
//! rollout of learned skills, and the trust level of a tool's output.

use vstd::prelude::*;

use crate::text::{chars_of, string_of};

verus! {

/// How far the real-world effect of an action can reach.
#[derive(Debug, Clone, Copy, PartialEq, Eq, Structural)]
pub enum BlastRadius {
    /// No real-world effect beyond the agent itself.
    Nothing,
    /// A contained, local effect.
    Low,
    /// A wide or hazardous effect.
    High,
}

/// The physical-risk profile of a tool.
#[derive(Debug, Clone, Copy, PartialEq, Eq, Structural)]
pub struct RiskClass {
    /// The tool acts on the physical world.
    pub physical: bool,
    /// The effect can be undone.
    pub reversible: bool,
    /// How far the effect can reach.
    pub blast: BlastRadius,
}

/// The profile of a non-physical, reversible action with no blast radius.
pub open spec fn safe_risk() -> RiskClass {
    RiskClass { physical: false, reversible: true, blast: BlastRadius::Nothing }
}

impl RiskClass {
    /// A non-physical, reversible action with no blast radius.
    pub fn safe() -> (r: Self)
        ensures
            r == safe_risk(),
    {
        RiskClass { physical: false, reversible: true, blast: BlastRadius::Nothing }
    }

    /// A physical action with the given reversibility and blast radius.
    pub fn physical(reversible: bool, blast: BlastRadius) -> (r: Self)
        ensures
            r == (RiskClass { physical: true, reversible, blast }),
    {
        RiskClass { physical: true, reversible, blast }
    }
}

impl Default for RiskClass {
    /// Tools are non-physical and reversible unless they say otherwise.
    fn default() -> (r: Self)
        ensures
            r == safe_risk(),
    {
        RiskClass::safe()
    }
}

/// The staged rollout of a learned skill that can touch the physical world:
/// `simulate → supervised → autonomous`.
#[derive(Debug, Clone, Copy, PartialEq, Eq, Structural)]
pub enum RolloutStage {
    /// Runs are simulated only.
    Simulate,
    /// Runs need an operator.
    Supervised,
    /// Runs on its own.
    Autonomous,
}

/// The stage above `s`, if any.
pub open spec fn stage_next(s: RolloutStage) -> Option<RolloutStage> {
    match s {
        RolloutStage::Simulate => Some(RolloutStage::Supervised),
        RolloutStage::Supervised => Some(RolloutStage::Autonomous),
        RolloutStage::Autonomous => None,
    }
}

/// The stage below `s`, if any.
pub open spec fn stage_prev(s: RolloutStage) -> Option<RolloutStage> {
    match s {
        RolloutStage::Simulate => None,
        RolloutStage::Supervised => Some(RolloutStage::Simulate),
        RolloutStage::Autonomous => Some(RolloutStage::Supervised),
    }
}

/// The lowercase name of a stage.
pub open spec fn stage_name(s: RolloutStage) -> Seq<char> {
    match s {
        RolloutStage::Simulate => "simulate"@,
        RolloutStage::Supervised => "supervised"@,
        RolloutStage::Autonomous => "autonomous"@,
    }
}

impl RolloutStage {
    /// The next stage up, or `None` at `Autonomous`.
    pub fn next(self) -> (r: Option<RolloutStage>)
        ensures
            r == stage_next(self),
    {
        match self {
            RolloutStage::Simulate => Some(RolloutStage::Supervised),
            RolloutStage::Supervised => Some(RolloutStage::Autonomous),
            RolloutStage::Autonomous => None,
        }
    }

    /// The next stage down, or `None` at `Simulate`.
    pub fn prev(self) -> (r: Option<RolloutStage>)
        ensures
            r == stage_prev(self),
    {
        match self {
            RolloutStage::Simulate => None,
            RolloutStage::Supervised => Some(RolloutStage::Simulate),
            RolloutStage::Autonomous => Some(RolloutStage::Supervised),
        }
    }

    /// The lowercase name of the stage.
    pub fn as_str(self) -> (s: String)
        ensures
            s@ == stage_name(self),
    {
        proof {
            reveal_strlit("simulate");
            reveal_strlit("supervised");
            reveal_strlit("autonomous");
        }
        match self {
            RolloutStage::Simulate => string_of(&chars_of("simulate")),
            RolloutStage::Supervised => string_of(&chars_of("supervised")),
            RolloutStage::Autonomous => string_of(&chars_of("autonomous")),
        }
    }
}

impl Default for RolloutStage {
    /// New skills start simulated.
    fn default() -> (s: Self)
        ensures
            s == RolloutStage::Simulate,
    {
        RolloutStage::Simulate
    }
}

/// Going one stage up and then one stage down returns to where it started,
/// and so does the reverse; the two ends have no step beyond them.
pub proof fn lemma_stage_steps_undo(s: RolloutStage)
    ensures
        stage_next(s) matches Some(n) ==> stage_prev(n) == Some(s),
        stage_prev(s) matches Some(p) ==> stage_next(p) == Some(s),
        stage_next(s) is None <==> s == RolloutStage::Autonomous,
        stage_prev(s) is None <==> s == RolloutStage::Simulate,
{
}

/// Trust level of a tool's output as a data source.
#[derive(Debug, Clone, Copy, PartialEq, Eq, Structural)]
pub enum OutputTrust {
    /// Produced inside the trust boundary.
    Trusted,
    /// Content from outside the trust boundary (web, remote, inbound text).
    External,
}

impl Default for OutputTrust {
    fn default() -> (t: Self)
        ensures
            t == OutputTrust::Trusted,
    {
        OutputTrust::Trusted
    }
}

} // verus!
