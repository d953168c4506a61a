//! Public input and output types of the router.
//!
//! Probabilities and confidences are fixed-point: millionths (parts per
//! million), so `650_000` stands for 0.65.

use vstd::prelude::*;

use crate::keyed_map::KeyedMap;

verus! {

/// One turn in the conversation / transcript.
#[derive(Debug, PartialEq, Eq)]
pub struct SessionMessage {
    pub role: MessageRole,
    pub content: String,
}

impl Clone for SessionMessage {
    fn clone(&self) -> (r: Self)
        ensures
            r == *self,
    {
        SessionMessage { role: self.role, content: self.content.clone() }
    }
}

#[derive(Debug, Clone, Copy, PartialEq, Eq, Structural)]
pub enum MessageRole {
    System,
    User,
    Assistant,
    Tool,
}

/// Primary task class (code | short-classify | long-reason | creative | tool-use).
#[derive(Debug, Clone, Copy, PartialEq, Eq, Structural)]
pub enum TaskClass {
    Code,
    ShortClassify,
    LongReason,
    Creative,
    ToolUse,
}

#[derive(Debug, Clone, Copy, PartialEq, Eq, Structural)]
pub enum LengthHint {
    Short,
    Medium,
    Long,
}

#[derive(Debug, Clone, Copy, PartialEq, Eq, Structural)]
pub enum ComplexityHint {
    Simple,
    Medium,
    Hard,
}

#[derive(Debug, Clone, Copy, PartialEq, Eq, Structural)]
pub enum LatencyMode {
    Interactive,
    Batch,
}

/// Prompt-prefix reuse / cache hypothesis input signal.
#[derive(Debug, Clone, Copy, PartialEq, Eq, Structural)]
pub enum PrefixReuse {
    Strong,
    Weak,
    NoReuse,
}

pub open spec fn prefix_reuse_name(p: PrefixReuse) -> Seq<char> {
    match p {
        PrefixReuse::Strong => "strong"@,
        PrefixReuse::Weak => "weak"@,
        PrefixReuse::NoReuse => "none"@,
    }
}

impl PrefixReuse {
    pub fn as_str(self) -> (s: &'static str)
        ensures
            s@ == prefix_reuse_name(self),
    {
        match self {
            PrefixReuse::Strong => "strong",
            PrefixReuse::Weak => "weak",
            PrefixReuse::NoReuse => "none",
        }
    }
}

/// Inputs the caller provides for a routing decision.
///
/// Optional signal fields are pass-through only: the router does not invent
/// classifiers; callers supply them when known.
#[derive(Debug, Clone, PartialEq, Eq)]
pub struct RouterRequest {
    /// Full session so far (conversation / transcript).
    pub session: Vec<SessionMessage>,
    /// Model already chosen for this session, if any.
    pub current_model: Option<String>,
    /// Model ids Choice may select.
    pub allowlist: Vec<String>,
    pub task_class: Option<TaskClass>,
    pub length: Option<LengthHint>,
    pub complexity: Option<ComplexityHint>,
    /// Whether tools / function calling are required.
    pub tools_required: Option<bool>,
    pub latency_mode: Option<LatencyMode>,
    /// Shared-prefix reuse strength (feeds the cache hypothesis).
    pub prefix_reuse: Option<PrefixReuse>,
    /// Order-of-magnitude reusable prefix tokens.
    pub prefix_tokens_est: Option<u32>,
    /// Rough expected input tokens (for the cost note).
    pub tokens_in_est: Option<u32>,
    /// Rough expected output tokens.
    pub tokens_out_est: Option<u32>,
}

/// Rejected alternative with a one-line reason.
#[derive(Debug, PartialEq, Eq)]
pub struct AlternativeConsidered {
    pub model_or_tier: String,
    pub why_rejected: String,
}

/// Cache hypothesis emitted on every decision.
#[derive(Debug, PartialEq, Eq)]
pub struct CacheHypothesis {
    pub strength: PrefixReuse,
    pub rationale: String,
}

/// Structured explanation of the cost / cache / quality tradeoff.
#[derive(Debug, PartialEq)]
pub struct WhyTradeoff {
    /// Primary axis that drove the decision.
    pub primary: DecisionReason,
    /// Short human-readable summary.
    pub summary: String,
    /// Choice confidence for the model pick (millionths), when available.
    pub confidence: Option<u32>,
    /// Probability mass over allowlisted models (millionths), when available.
    pub probabilities: Option<KeyedMap<u32>>,
}

#[derive(Debug, Clone, Copy, PartialEq, Eq, Structural)]
pub enum DecisionReason {
    /// Stay on the current model (usually to preserve prompt-cache hits).
    ContinueCurrent,
    /// Switch primarily to reduce spend.
    Cost,
    /// Switch primarily because cache economics favor another model.
    Cache,
    /// Switch primarily for expected quality / capability.
    Quality,
    /// Fallback when no reason Choice was returned.
    Unspecified,
}

pub open spec fn decision_reason_name(r: DecisionReason) -> Seq<char> {
    match r {
        DecisionReason::ContinueCurrent => "continue_current"@,
        DecisionReason::Cost => "cost"@,
        DecisionReason::Cache => "cache"@,
        DecisionReason::Quality => "quality"@,
        DecisionReason::Unspecified => "unspecified"@,
    }
}

impl DecisionReason {
    pub fn as_str(self) -> (s: &'static str)
        ensures
            s@ == decision_reason_name(self),
    {
        match self {
            DecisionReason::ContinueCurrent => "continue_current",
            DecisionReason::Cost => "cost",
            DecisionReason::Cache => "cache",
            DecisionReason::Quality => "quality",
            DecisionReason::Unspecified => "unspecified",
        }
    }
}

/// Router output: decision fields plus a backward-compatible nest.
#[derive(Debug, PartialEq)]
pub struct RouterDecision {
    /// Selected model id (always a member of the request allowlist).
    pub chosen_model: String,
    /// Catalog tier label when known (`T-small` | `T-mid` | `T-frontier`).
    pub chosen_tier: Option<String>,
    /// Primary tradeoff axis from the `primary_reason` Choice.
    pub primary_reason: DecisionReason,
    /// Other candidates, with one-line rejection reasons.
    pub alternatives_considered: Vec<AlternativeConsidered>,
    /// Caching hypothesis (strong | weak | none + rationale).
    pub cache_hypothesis: CacheHypothesis,
    /// Placeholder band x token estimate note (not live pricing).
    pub rough_cost_note: String,
    /// Choice confidence for the model pick (millionths), when available.
    pub confidence: Option<u32>,
    /// Optional open risk note.
    pub open_risk: Option<String>,
    /// Backward-compatible alias of `chosen_model`.
    pub model: String,
    /// Backward-compatible nested why blob.
    pub why: WhyTradeoff,
}


impl Clone for AlternativeConsidered {
    fn clone(&self) -> (r: Self)
        ensures
            r == *self,
    {
        AlternativeConsidered { model_or_tier: self.model_or_tier.clone(), why_rejected: self.why_rejected.clone() }
    }
}

impl Clone for CacheHypothesis {
    fn clone(&self) -> (r: Self)
        ensures
            r == *self,
    {
        CacheHypothesis { strength: self.strength, rationale: self.rationale.clone() }
    }
}

pub fn copy_opt_string(o: &Option<String>) -> (r: Option<String>)
    ensures
        r == *o,
{
    match o {
        Some(s) => Some(s.clone()),
        None => None,
    }
}

fn copy_alternatives(v: &Vec<AlternativeConsidered>) -> (r: Vec<AlternativeConsidered>)
    ensures
        r@ == v@,
{
    let mut out: Vec<AlternativeConsidered> = Vec::new();
    let n = v.len();
    let mut i: usize = 0;
    while i < n
        invariant
            n == v@.len(),
            i <= n,
            out@ == v@.take(i as int),
        decreases n - i,
    {
        out.push(v[i].clone());
        assert(v@.take(i as int + 1) =~= v@.take(i as int).push(v@[i as int]));
        i = i + 1;
    }
    assert(v@.take(n as int) =~= v@);
    out
}

pub open spec fn opt_probs_view(o: Option<KeyedMap<u32>>) -> Option<Map<Seq<char>, u32>> {
    match o {
        Some(m) => Some(m@),
        None => None,
    }
}

/// The same explanation: equal fields, equal probability maps.
pub open spec fn same_why(a: WhyTradeoff, b: WhyTradeoff) -> bool {
    &&& a.primary == b.primary
    &&& a.summary == b.summary
    &&& a.confidence == b.confidence
    &&& opt_probs_view(a.probabilities) == opt_probs_view(b.probabilities)
}

impl Clone for WhyTradeoff {
    fn clone(&self) -> (r: Self)
        ensures
            same_why(r, *self),
    {
        let probabilities = match &self.probabilities {
            Some(m) => {
                let c = m.clone();
                assert(c@ =~= m@);
                Some(c)
            },
            None => None,
        };
        WhyTradeoff {
            primary: self.primary,
            summary: self.summary.clone(),
            confidence: self.confidence,
            probabilities,
        }
    }
}

/// The same decision: equal fields, the same explanation.
pub open spec fn same_decision(a: RouterDecision, b: RouterDecision) -> bool {
    &&& a.chosen_model == b.chosen_model
    &&& a.chosen_tier == b.chosen_tier
    &&& a.primary_reason == b.primary_reason
    &&& a.alternatives_considered@ == b.alternatives_considered@
    &&& a.cache_hypothesis == b.cache_hypothesis
    &&& a.rough_cost_note == b.rough_cost_note
    &&& a.confidence == b.confidence
    &&& a.open_risk == b.open_risk
    &&& a.model == b.model
    &&& same_why(a.why, b.why)
}

impl Clone for RouterDecision {
    fn clone(&self) -> (r: Self)
        ensures
            same_decision(r, *self),
    {
        RouterDecision {
            chosen_model: self.chosen_model.clone(),
            chosen_tier: copy_opt_string(&self.chosen_tier),
            primary_reason: self.primary_reason,
            alternatives_considered: copy_alternatives(&self.alternatives_considered),
            cache_hypothesis: self.cache_hypothesis.clone(),
            rough_cost_note: self.rough_cost_note.clone(),
            confidence: self.confidence,
            open_risk: copy_opt_string(&self.open_risk),
            model: self.model.clone(),
            why: self.why.clone(),
        }
    }
}

/// Wire names of the signal enums (lowercase; task classes kebab-case).
pub open spec fn role_name(r: MessageRole) -> Seq<char> {
    match r {
        MessageRole::System => "system"@,
        MessageRole::User => "user"@,
        MessageRole::Assistant => "assistant"@,
        MessageRole::Tool => "tool"@,
    }
}

pub open spec fn task_class_name(t: TaskClass) -> Seq<char> {
    match t {
        TaskClass::Code => "code"@,
        TaskClass::ShortClassify => "short-classify"@,
        TaskClass::LongReason => "long-reason"@,
        TaskClass::Creative => "creative"@,
        TaskClass::ToolUse => "tool-use"@,
    }
}

pub open spec fn length_name(l: LengthHint) -> Seq<char> {
    match l {
        LengthHint::Short => "short"@,
        LengthHint::Medium => "medium"@,
        LengthHint::Long => "long"@,
    }
}

pub open spec fn complexity_name(c: ComplexityHint) -> Seq<char> {
    match c {
        ComplexityHint::Simple => "simple"@,
        ComplexityHint::Medium => "medium"@,
        ComplexityHint::Hard => "hard"@,
    }
}

pub open spec fn latency_name(l: LatencyMode) -> Seq<char> {
    match l {
        LatencyMode::Interactive => "interactive"@,
        LatencyMode::Batch => "batch"@,
    }
}

impl MessageRole {
    pub fn wire_name(self) -> (s: &'static str)
        ensures
            s@ == role_name(self),
    {
        match self {
            MessageRole::System => "system",
            MessageRole::User => "user",
            MessageRole::Assistant => "assistant",
            MessageRole::Tool => "tool",
        }
    }
}

impl TaskClass {
    pub fn wire_name(self) -> (s: &'static str)
        ensures
            s@ == task_class_name(self),
    {
        match self {
            TaskClass::Code => "code",
            TaskClass::ShortClassify => "short-classify",
            TaskClass::LongReason => "long-reason",
            TaskClass::Creative => "creative",
            TaskClass::ToolUse => "tool-use",
        }
    }
}

impl LengthHint {
    pub fn wire_name(self) -> (s: &'static str)
        ensures
            s@ == length_name(self),
    {
        match self {
            LengthHint::Short => "short",
            LengthHint::Medium => "medium",
            LengthHint::Long => "long",
        }
    }
}

impl ComplexityHint {
    pub fn wire_name(self) -> (s: &'static str)
        ensures
            s@ == complexity_name(self),
    {
        match self {
            ComplexityHint::Simple => "simple",
            ComplexityHint::Medium => "medium",
            ComplexityHint::Hard => "hard",
        }
    }
}

impl LatencyMode {
    pub fn wire_name(self) -> (s: &'static str)
        ensures
            s@ == latency_name(self),
    {
        match self {
            LatencyMode::Interactive => "interactive",
            LatencyMode::Batch => "batch",
        }
    }
}

} // verus!
