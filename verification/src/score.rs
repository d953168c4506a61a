//! Score feedback: rubric question ids and levels, outcome records, Score
//! jobs, and the packing and reading of Score requests.
//!
//! Score never runs on the hot path: a routed turn is recorded as a pending
//! outcome and a Score job is queued for a worker. Scores, probabilities
//! and confidences are millionths.

use vstd::prelude::*;

use crate::json::{
    elems_view, jopt_str, json_opt_str, json_str, make_array, make_object, members_view,
    push_elem, push_member, Json, JsonView,
};
use crate::keyed_map::KeyedMap;
use crate::model_provider::opt_string_view;
use crate::pack::{opt_task_class_name, DEFAULT_SYSTEM_ONE_MODEL};
use crate::text::{decimal, decimal_string, views_of};
use crate::types::{
    copy_opt_string, decision_reason_name, prefix_reuse_name, same_decision, AlternativeConsidered,
    ComplexityHint, LatencyMode, LengthHint, MessageRole, PrefixReuse, RouterDecision,
    RouterRequest, SessionMessage, TaskClass,
};
use crate::typesafe::api::{answer_debug_text, Answer, Question, ScoreQuestion, SystemOneRequest, SystemOneResponse};

verus! {

/// Score question id: quality rubric (4 levels, lowest first).
pub const QUALITY_QUESTION_ID: &'static str = "quality";

/// Score question id: instruction-following rubric (3 levels).
pub const INSTRUCTION_FOLLOW_QUESTION_ID: &'static str = "instruction_follow";

/// Optional rubric, packed only when asked for.
pub const TASK_FIT_QUESTION_ID: &'static str = "task_fit";

pub const QUALITY_INSTRUCTIONS: &'static str = "Rate the quality of model_output for incoming_prompt given the routing decision. Lowest = wrong/unusable; highest = correct + robust.";

pub const INSTRUCTION_FOLLOW_INSTRUCTIONS: &'static str = "How well does model_output follow explicit constraints in incoming_prompt? Lowest = ignores; highest = follows cleanly.";

pub const TASK_FIT_INSTRUCTIONS: &'static str = "Optional: how well does the chosen_model tier fit this task_class? (Reserved; Phase A may omit.)";

/// Quality levels, lowest first.
pub open spec fn quality_levels() -> Seq<Seq<char>> {
    seq!["Wrong/unusable"@, "Partially correct"@, "Correct usable"@, "Correct + robust"@]
}

/// Instruction-following levels, lowest first.
pub open spec fn instruction_follow_levels() -> Seq<Seq<char>> {
    seq!["Ignores constraints"@, "Mostly follows"@, "Follows cleanly"@]
}

/// Task-fit levels, lowest first.
pub open spec fn task_fit_levels() -> Seq<Seq<char>> {
    seq!["Poor task match"@, "Adequate task match"@, "Strong task match"@]
}

pub fn quality_level_texts() -> (v: Vec<String>)
    ensures
        views_of(v@) == quality_levels(),
{
    let v = vec![
        "Wrong/unusable".to_owned(),
        "Partially correct".to_owned(),
        "Correct usable".to_owned(),
        "Correct + robust".to_owned(),
    ];
    assert(views_of(v@) =~= quality_levels());
    v
}

pub fn instruction_follow_level_texts() -> (v: Vec<String>)
    ensures
        views_of(v@) == instruction_follow_levels(),
{
    let v = vec!["Ignores constraints".to_owned(), "Mostly follows".to_owned(), "Follows cleanly".to_owned()];
    assert(views_of(v@) =~= instruction_follow_levels());
    v
}

pub fn task_fit_level_texts() -> (v: Vec<String>)
    ensures
        views_of(v@) == task_fit_levels(),
{
    let v = vec!["Poor task match".to_owned(), "Adequate task match".to_owned(), "Strong task match".to_owned()];
    assert(views_of(v@) =~= task_fit_levels());
    v
}

/// Whether Score has been applied to a [`RouteOutcome`].
#[derive(Debug, Clone, Copy, PartialEq, Eq, Structural)]
pub enum ScoresStatus {
    Pending,
    /// Scored successfully.
    Scored,
    Failed,
}

/// Stub or live System One client, recorded on outcomes.
#[derive(Debug, Clone, Copy, PartialEq, Eq, Structural)]
pub enum ClientMode {
    Stub,
    Live,
}

/// One rubric's Score answer: expected level, distribution, confidence.
#[derive(Debug, Clone, PartialEq)]
pub struct RubricScore {
    /// Expected level (millionths).
    pub score: u64,
    /// Level index → probability (millionths).
    pub probabilities: KeyedMap<u32>,
    /// Confidence (millionths).
    pub confidence: u32,
    /// Level index → level text.
    pub legend: KeyedMap<String>,
}

/// The Score answers collected for a turn.
#[derive(Debug, Clone, PartialEq)]
pub struct OutcomeScores {
    pub quality: Option<RubricScore>,
    pub instruction_follow: Option<RubricScore>,
    pub task_fit: Option<RubricScore>,
}

/// Record of a routed turn and its (asynchronous) scores.
#[derive(Debug, Clone, PartialEq)]
pub struct RouteOutcome {
    pub outcome_id: String,
    pub task_class: Option<TaskClass>,
    pub length: Option<LengthHint>,
    pub complexity: Option<ComplexityHint>,
    pub tools_required: Option<bool>,
    pub latency_mode: Option<LatencyMode>,
    pub prefix_reuse: Option<PrefixReuse>,
    pub decision: RouterDecision,
    pub model_output: String,
    pub output_tokens_est: Option<u32>,
    pub scores_status: ScoresStatus,
    pub scores: Option<OutcomeScores>,
    /// Set when scoring finishes (scored or failed).
    pub scored_at: Option<String>,
    pub score_error: Option<String>,
    pub client_mode: ClientMode,
    pub created_at: String,
    pub typesafe_model: String,
}

/// Job queued after the hot path; a worker runs Score and patches the
/// outcome.
#[derive(Debug, Clone, PartialEq)]
pub struct ScoreJob {
    pub job_id: String,
    pub outcome_id: String,
    pub typesafe_model: String,
    /// Snapshot needed to rebuild the Score state without re-routing.
    pub incoming_prompt: String,
    pub chosen_model: String,
    pub model_output: String,
    pub task_class: Option<TaskClass>,
    pub decision: RouterDecision,
    /// Also ask the optional `task_fit` Score.
    pub include_task_fit: bool,
    pub enqueued_at: String,
}

/// `std::time::SystemTime`, a reading of the system clock.
#[verifier::external_type_specification]
#[verifier::external_body]
pub struct ExSystemTime(std::time::SystemTime);

/// `std::time::SystemTimeError`, a clock reading before the reference time.
#[verifier::external_type_specification]
#[verifier::external_body]
pub struct ExSystemTimeError(std::time::SystemTimeError);

/// Wraps `SystemTime::now`. The clock is outside the program: nothing is
/// promised of the reading.
#[verifier::external_body]
fn clock_now() -> std::time::SystemTime {
    std::time::SystemTime::now()
}

/// Wraps `SystemTime::duration_since(UNIX_EPOCH)`: the time since the
/// Unix epoch, or an error for a reading before it. Nothing is stated of
/// the value.
#[verifier::external_body]
fn since_unix_epoch(t: &std::time::SystemTime) -> Result<std::time::Duration, std::time::SystemTimeError> {
    t.duration_since(std::time::UNIX_EPOCH)
}

/// Wraps `Duration::as_nanos`: the whole nanoseconds of a duration. The
/// duration is opaque here, so nothing is stated of the value.
#[verifier::external_body]
fn duration_nanos(d: &std::time::Duration) -> u128 {
    d.as_nanos()
}

/// The clock in nanoseconds since the Unix epoch (`None` before it).
fn unix_time_nanos() -> Option<u128> {
    let now = clock_now();
    match since_unix_epoch(&now) {
        Ok(d) => Some(duration_nanos(&d)),
        Err(_) => None,
    }
}

/// Seconds since the Unix epoch, in decimal (`0` before it).
pub fn unix_timestamp_string() -> (r: String)
    ensures
        exists|n: nat| r@ == decimal(n),
{
    let secs: u128 = match unix_time_nanos() {
        Some(n) => n / 1_000_000_000,
        None => 0,
    };
    decimal_string(secs)
}

/// A fresh id: `prefix`, `_`, the clock in nanoseconds.
pub fn new_id(prefix: &str) -> (r: String)
    ensures
        exists|n: nat| r@ == prefix@ + "_"@ + decimal(n),
{
    let nanos: u128 = match unix_time_nanos() {
        Some(n) => n,
        None => 0,
    };
    let mut r = prefix.to_owned();
    r.append("_");
    let d = decimal_string(nanos);
    r.append(d.as_str());
    r
}

/// `o` is the pending outcome for this turn: the request's signals, the
/// decision, the output, no scores yet.
pub open spec fn pending_outcome_is(
    o: RouteOutcome,
    outcome_id: Seq<char>,
    request: RouterRequest,
    decision: RouterDecision,
    model_output: Seq<char>,
    output_tokens_est: Option<u32>,
    client_mode: ClientMode,
    typesafe_model: Seq<char>,
) -> bool {
    &&& o.outcome_id@ == outcome_id
    &&& o.task_class == request.task_class
    &&& o.length == request.length
    &&& o.complexity == request.complexity
    &&& o.tools_required == request.tools_required
    &&& o.latency_mode == request.latency_mode
    &&& o.prefix_reuse == request.prefix_reuse
    &&& same_decision(o.decision, decision)
    &&& o.model_output@ == model_output
    &&& o.output_tokens_est == output_tokens_est
    &&& o.scores_status == ScoresStatus::Pending
    &&& o.scores is None
    &&& o.scored_at is None
    &&& o.score_error is None
    &&& o.client_mode == client_mode
    &&& exists|n: nat| o.created_at@ == decimal(n)
    &&& o.typesafe_model@ == typesafe_model
}

/// The record fields that scoring leaves alone.
pub open spec fn same_turn(a: RouteOutcome, b: RouteOutcome) -> bool {
    &&& a.outcome_id == b.outcome_id
    &&& a.task_class == b.task_class
    &&& a.length == b.length
    &&& a.complexity == b.complexity
    &&& a.tools_required == b.tools_required
    &&& a.latency_mode == b.latency_mode
    &&& a.prefix_reuse == b.prefix_reuse
    &&& a.decision == b.decision
    &&& a.model_output == b.model_output
    &&& a.output_tokens_est == b.output_tokens_est
    &&& a.client_mode == b.client_mode
    &&& a.created_at == b.created_at
    &&& a.typesafe_model == b.typesafe_model
}

impl RouteOutcome {
    /// The pending outcome recorded right after routing and model output.
    pub fn pending(
        outcome_id: &str,
        request: &RouterRequest,
        decision: RouterDecision,
        model_output: &str,
        output_tokens_est: Option<u32>,
        client_mode: ClientMode,
        typesafe_model: &str,
    ) -> (o: Self)
        ensures
            pending_outcome_is(o, outcome_id@, *request, decision, model_output@, output_tokens_est, client_mode, typesafe_model@),
    {
        let ghost d = decision;
        let o = RouteOutcome {
            outcome_id: outcome_id.to_owned(),
            task_class: request.task_class,
            length: request.length,
            complexity: request.complexity,
            tools_required: request.tools_required,
            latency_mode: request.latency_mode,
            prefix_reuse: request.prefix_reuse,
            decision,
            model_output: model_output.to_owned(),
            output_tokens_est,
            scores_status: ScoresStatus::Pending,
            scores: None,
            scored_at: None,
            score_error: None,
            client_mode,
            created_at: unix_timestamp_string(),
            typesafe_model: typesafe_model.to_owned(),
        };
        assert(same_decision(o.decision, d));
        o
    }

    /// Records successful scores.
    pub fn mark_scored_ok(&mut self, scores: OutcomeScores)
        ensures
            same_turn(*final(self), *old(self)),
            final(self).scores_status == ScoresStatus::Scored,
            final(self).scores == Some(scores),
            final(self).scored_at is Some && exists|n: nat| final(self).scored_at.unwrap()@ == decimal(n),
            final(self).score_error is None,
    {
        self.scores = Some(scores);
        self.scores_status = ScoresStatus::Scored;
        self.scored_at = Some(unix_timestamp_string());
        self.score_error = None;
    }

    /// Records a scoring failure; earlier scores stay.
    pub fn mark_scored_failed(&mut self, err: &str)
        ensures
            same_turn(*final(self), *old(self)),
            final(self).scores_status == ScoresStatus::Failed,
            final(self).scores == old(self).scores,
            final(self).scored_at is Some && exists|n: nat| final(self).scored_at.unwrap()@ == decimal(n),
            final(self).score_error is Some && final(self).score_error.unwrap()@ == err@,
    {
        self.scores_status = ScoresStatus::Failed;
        self.scored_at = Some(unix_timestamp_string());
        self.score_error = Some(err.to_owned());
    }
}

/// `i` holds the last user message of the session.
pub open spec fn last_user(session: Seq<SessionMessage>, i: int) -> bool {
    &&& 0 <= i < session.len()
    &&& session[i].role == MessageRole::User
    &&& forall|j: int| i < j < session.len() ==> (#[trigger] session[j]).role != MessageRole::User
}

/// The last user message's text, else the last message's, else empty.
pub open spec fn incoming_prompt(session: Seq<SessionMessage>) -> Seq<char> {
    if exists|i: int| last_user(session, i) {
        session[choose|i: int| last_user(session, i)].content@
    } else if session.len() > 0 {
        session.last().content@
    } else {
        Seq::empty()
    }
}

/// The incoming prompt of a session, the Score state's `incoming_prompt`.
pub fn incoming_prompt_from_session(session: &[SessionMessage]) -> (r: String)
    ensures
        r@ == incoming_prompt(session@),
{
    let n = session.len();
    let mut i: usize = n;
    while i > 0
        invariant
            n == session@.len(),
            i <= n,
            forall|j: int| i <= j < n ==> (#[trigger] session@[j]).role != MessageRole::User,
        decreases i,
    {
        if session[i - 1].role == MessageRole::User {
            proof {
                assert(last_user(session@, i - 1));
                let c = choose|c: int| last_user(session@, c);
                if c < i - 1 {
                    assert(session@[i - 1].role != MessageRole::User);
                } else if c > i - 1 {
                    assert(session@[c].role != MessageRole::User);
                }
            }
            return session[i - 1].content.clone();
        }
        i = i - 1;
    }
    proof {
        if exists|c: int| last_user(session@, c) {
            let c = choose|c: int| last_user(session@, c);
            assert(session@[c].role != MessageRole::User);
        }
    }
    if n > 0 {
        session[n - 1].content.clone()
    } else {
        String::new()
    }
}

pub open spec fn alternative_json(a: AlternativeConsidered) -> JsonView {
    JsonView::Object(seq![("model_or_tier"@, JsonView::Str(a.model_or_tier@)), ("why_rejected"@, JsonView::Str(a.why_rejected@))])
}

/// The decision as the Score state shows it.
pub open spec fn decision_json(d: RouterDecision) -> JsonView {
    JsonView::Object(
        seq![
            ("chosen_model"@, JsonView::Str(d.chosen_model@)),
            ("chosen_tier"@, jopt_str(opt_string_view(d.chosen_tier))),
            ("primary_reason"@, JsonView::Str(decision_reason_name(d.primary_reason))),
            (
                "alternatives_considered"@,
                JsonView::Array(Seq::new(d.alternatives_considered@.len(), |i: int| alternative_json(d.alternatives_considered@[i]))),
            ),
            (
                "cache_hypothesis"@,
                JsonView::Object(
                    seq![
                        ("strength"@, JsonView::Str(prefix_reuse_name(d.cache_hypothesis.strength))),
                        ("rationale"@, JsonView::Str(d.cache_hypothesis.rationale@)),
                    ],
                ),
            ),
            ("rough_cost_note"@, JsonView::Str(d.rough_cost_note@)),
        ],
    )
}

/// The state System One scores: the turn's prompt, chosen model, output,
/// task class and routing decision.
pub open spec fn score_state_json(job: ScoreJob) -> JsonView {
    JsonView::Object(
        seq![
            ("task"@, JsonView::Str("llm_route_outcome_score"@)),
            ("policy_ref"@, JsonView::Str("docs/score-feedback-loop.md"@)),
            ("incoming_prompt"@, JsonView::Str(job.incoming_prompt@)),
            ("chosen_model"@, JsonView::Str(job.chosen_model@)),
            ("model_output"@, JsonView::Str(job.model_output@)),
            ("task_class"@, jopt_str(opt_task_class_name(job.task_class))),
            ("decision"@, decision_json(job.decision)),
        ],
    )
}

fn alternative_to_json(a: &AlternativeConsidered) -> (j: Json)
    ensures
        j@ == alternative_json(*a),
{
    let mut members: Vec<(String, Json)> = Vec::new();
    assert(members_view(members@) =~= Seq::empty());
    push_member(&mut members, "model_or_tier", json_str(a.model_or_tier.as_str()));
    push_member(&mut members, "why_rejected", json_str(a.why_rejected.as_str()));
    proof {
        match alternative_json(*a) {
            JsonView::Object(expect) => assert(members_view(members@) =~= expect),
            _ => {},
        }
    }
    make_object(members)
}

fn decision_to_json(d: &RouterDecision) -> (j: Json)
    ensures
        j@ == decision_json(*d),
{
    let mut alts: Vec<Json> = Vec::new();
    let n = d.alternatives_considered.len();
    let mut i: usize = 0;
    while i < n
        invariant
            n == d.alternatives_considered@.len(),
            i <= n,
            elems_view(alts@) =~= Seq::new(i as nat, |k: int| alternative_json(d.alternatives_considered@[k])),
        decreases n - i,
    {
        push_elem(&mut alts, alternative_to_json(&d.alternatives_considered[i]));
        i = i + 1;
    }
    let mut cache: Vec<(String, Json)> = Vec::new();
    assert(members_view(cache@) =~= Seq::empty());
    push_member(&mut cache, "strength", json_str(d.cache_hypothesis.strength.as_str()));
    push_member(&mut cache, "rationale", json_str(d.cache_hypothesis.rationale.as_str()));
    assert(members_view(cache@) =~= seq![
        ("strength"@, JsonView::Str(prefix_reuse_name(d.cache_hypothesis.strength))),
        ("rationale"@, JsonView::Str(d.cache_hypothesis.rationale@)),
    ]);
    let cache_json = make_object(cache);
    let alts_json = make_array(alts);
    assert(alts_json@ == JsonView::Array(Seq::new(d.alternatives_considered@.len(), |i: int| alternative_json(d.alternatives_considered@[i]))));
    let mut members: Vec<(String, Json)> = Vec::new();
    assert(members_view(members@) =~= Seq::empty());
    push_member(&mut members, "chosen_model", json_str(d.chosen_model.as_str()));
    push_member(&mut members, "chosen_tier", json_opt_str(&d.chosen_tier));
    push_member(&mut members, "primary_reason", json_str(d.primary_reason.as_str()));
    push_member(&mut members, "alternatives_considered", alts_json);
    push_member(&mut members, "cache_hypothesis", cache_json);
    push_member(&mut members, "rough_cost_note", json_str(d.rough_cost_note.as_str()));
    proof {
        match decision_json(*d) {
            JsonView::Object(expect) => assert(members_view(members@) =~= expect),
            _ => {},
        }
    }
    make_object(members)
}

fn score_state(job: &ScoreJob) -> (j: Json)
    ensures
        j@ == score_state_json(*job),
{
    let task = match job.task_class {
        Some(t) => json_str(t.wire_name()),
        None => Json::Null,
    };
    let mut members: Vec<(String, Json)> = Vec::new();
    assert(members_view(members@) =~= Seq::empty());
    push_member(&mut members, "task", json_str("llm_route_outcome_score"));
    push_member(&mut members, "policy_ref", json_str("docs/score-feedback-loop.md"));
    push_member(&mut members, "incoming_prompt", json_str(job.incoming_prompt.as_str()));
    push_member(&mut members, "chosen_model", json_str(job.chosen_model.as_str()));
    push_member(&mut members, "model_output", json_str(job.model_output.as_str()));
    push_member(&mut members, "task_class", task);
    push_member(&mut members, "decision", decision_to_json(&job.decision));
    proof {
        match score_state_json(*job) {
            JsonView::Object(expect) => assert(members_view(members@) =~= expect),
            _ => {},
        }
    }
    make_object(members)
}

/// `q` is the Score question with these instructions and levels.
pub open spec fn score_question_is(q: Question, instructions: Seq<char>, levels: Seq<Seq<char>>) -> bool {
    &&& q is Score
    &&& q->Score_0.instructions@ == instructions
    &&& views_of(q->Score_0.criteria@) == levels
}

/// `r` is the Score request for `job`: the Score state, the job's System
/// One model (the default when empty), the quality and instruction-follow
/// rubrics, and the task-fit rubric exactly when asked for.
pub open spec fn score_request_is(r: SystemOneRequest, job: ScoreJob, include_task_fit: bool) -> bool {
    let qs = r.questions@;
    &&& r.state@ == score_state_json(job)
    &&& r.model@ == (if job.typesafe_model@.len() == 0 { DEFAULT_SYSTEM_ONE_MODEL@ } else { job.typesafe_model@ })
    &&& qs.dom() == (if include_task_fit {
        set![QUALITY_QUESTION_ID@, INSTRUCTION_FOLLOW_QUESTION_ID@, TASK_FIT_QUESTION_ID@]
    } else {
        set![QUALITY_QUESTION_ID@, INSTRUCTION_FOLLOW_QUESTION_ID@]
    })
    &&& score_question_is(qs[QUALITY_QUESTION_ID@], QUALITY_INSTRUCTIONS@, quality_levels())
    &&& score_question_is(qs[INSTRUCTION_FOLLOW_QUESTION_ID@], INSTRUCTION_FOLLOW_INSTRUCTIONS@, instruction_follow_levels())
    &&& include_task_fit ==> score_question_is(qs[TASK_FIT_QUESTION_ID@], TASK_FIT_INSTRUCTIONS@, task_fit_levels())
}

/// Packs the System One Score questions for a completed turn.
pub fn pack_score_request(job: &ScoreJob, include_task_fit: bool) -> (r: SystemOneRequest)
    ensures
        score_request_is(r, *job, include_task_fit),
{
    let state = score_state(job);
    let mut questions: KeyedMap<Question> = KeyedMap::new();
    questions.insert(
        QUALITY_QUESTION_ID.to_owned(),
        Question::Score(ScoreQuestion { instructions: QUALITY_INSTRUCTIONS.to_owned(), criteria: quality_level_texts() }),
    );
    questions.insert(
        INSTRUCTION_FOLLOW_QUESTION_ID.to_owned(),
        Question::Score(
            ScoreQuestion {
                instructions: INSTRUCTION_FOLLOW_INSTRUCTIONS.to_owned(),
                criteria: instruction_follow_level_texts(),
            },
        ),
    );
    if include_task_fit {
        questions.insert(
            TASK_FIT_QUESTION_ID.to_owned(),
            Question::Score(ScoreQuestion { instructions: TASK_FIT_INSTRUCTIONS.to_owned(), criteria: task_fit_level_texts() }),
        );
    }
    proof {
        reveal_strlit("quality");
        reveal_strlit("instruction_follow");
        reveal_strlit("task_fit");
        assert(QUALITY_QUESTION_ID@.len() == 7);
        assert(INSTRUCTION_FOLLOW_QUESTION_ID@.len() == 18);
        assert(TASK_FIT_QUESTION_ID@.len() == 8);
        if include_task_fit {
            assert(questions@.dom() =~= set![QUALITY_QUESTION_ID@, INSTRUCTION_FOLLOW_QUESTION_ID@, TASK_FIT_QUESTION_ID@]);
        } else {
            assert(questions@.dom() =~= set![QUALITY_QUESTION_ID@, INSTRUCTION_FOLLOW_QUESTION_ID@]);
        }
    }
    let model = if job.typesafe_model.as_str().unicode_len() == 0 {
        DEFAULT_SYSTEM_ONE_MODEL.to_owned()
    } else {
        job.typesafe_model.clone()
    };
    SystemOneRequest { state, model, questions }
}

/// The Score state of a job, for inspection (not the hot path).
pub fn score_state_preview(job: &ScoreJob) -> (j: Json)
    ensures
        j@ == score_state_json(*job),
{
    pack_score_request(job, job.include_task_fit).state
}

/// `r` carries the Score answer `a`'s level, distribution, confidence and
/// legend.
pub open spec fn rubric_of(r: RubricScore, a: Answer) -> bool {
    &&& a is Score
    &&& r.score == a->Score_0.score
    &&& r.probabilities@ == a->Score_0.probabilities@
    &&& r.confidence == a->Score_0.confidence
    &&& r.legend@ == a->Score_0.legend@
}

/// What reading rubric `id` from `answers` gives: its Score answer, or an
/// error for a missing or non-Score answer.
pub open spec fn rubric_read(answers: Map<Seq<char>, Answer>, id: Seq<char>, r: Result<RubricScore, String>) -> bool {
    if !answers.contains_key(id) {
        r matches Err(m) && m@ == "missing Score answer `"@ + id + "`"@
    } else if !(answers[id] is Score) {
        r matches Err(m) && exists|t: Seq<char>| m@ == id + ": expected Score answer, got "@ + t
    } else {
        r matches Ok(s) && rubric_of(s, answers[id])
    }
}

fn extract_rubric(response: &SystemOneResponse, id: &str) -> (r: Result<RubricScore, String>)
    ensures
        rubric_read(response.answers@, id@, r),
{
    match response.answers.get(id) {
        Some(Answer::Score(s)) => {
            let probabilities = s.probabilities.clone();
            let legend = s.legend.clone();
            assert(probabilities@ =~= s.probabilities@);
            assert(legend@ =~= s.legend@);
            Ok(RubricScore { score: s.score, probabilities, confidence: s.confidence, legend })
        },
        Some(other) => {
            let mut m = id.to_owned();
            m.append(": expected Score answer, got ");
            let shown = answer_debug_text(other);
            m.append(shown.as_str());
            Err(m)
        },
        None => {
            let mut m = "missing Score answer `".to_owned();
            m.append(id);
            m.append("`");
            Err(m)
        },
    }
}

/// The rubric answers read from a Score response: quality and
/// instruction-follow are required, task-fit is read when answered.
pub open spec fn scores_read(answers: Map<Seq<char>, Answer>, r: Result<OutcomeScores, String>) -> bool {
    let q = QUALITY_QUESTION_ID@;
    let f = INSTRUCTION_FOLLOW_QUESTION_ID@;
    let t = TASK_FIT_QUESTION_ID@;
    let ok = |id: Seq<char>| answers.contains_key(id) && answers[id] is Score;
    if !ok(q) {
        r is Err && rubric_read(answers, q, Err(r->Err_0))
    } else if !ok(f) {
        r is Err && rubric_read(answers, f, Err(r->Err_0))
    } else if answers.contains_key(t) && !ok(t) {
        r is Err && rubric_read(answers, t, Err(r->Err_0))
    } else {
        r matches Ok(s) && {
            &&& s.quality is Some && rubric_of(s.quality.unwrap(), answers[q])
            &&& s.instruction_follow is Some && rubric_of(s.instruction_follow.unwrap(), answers[f])
            &&& (answers.contains_key(t) <==> s.task_fit is Some)
            &&& answers.contains_key(t) ==> rubric_of(s.task_fit.unwrap(), answers[t])
        }
    }
}

/// Each rubric of a read Score reply is the Score answer filed under that
/// rubric's own question id: its score, probabilities, confidence and
/// legend are that answer's, and task fit is read exactly when it was
/// answered.
pub proof fn lemma_rubrics_from_own_answers(answers: Map<Seq<char>, Answer>, r: Result<OutcomeScores, String>)
    requires
        scores_read(answers, r),
        r is Ok,
    ensures
        ({
            let s = r->Ok_0;
            let q = answers[QUALITY_QUESTION_ID@];
            let f = answers[INSTRUCTION_FOLLOW_QUESTION_ID@];
            let t = answers[TASK_FIT_QUESTION_ID@];
            &&& q is Score && f is Score
            &&& s.quality is Some && s.instruction_follow is Some
            &&& s.quality.unwrap().score == q->Score_0.score
            &&& s.quality.unwrap().confidence == q->Score_0.confidence
            &&& s.quality.unwrap().probabilities@ == q->Score_0.probabilities@
            &&& s.quality.unwrap().legend@ == q->Score_0.legend@
            &&& s.instruction_follow.unwrap().score == f->Score_0.score
            &&& s.instruction_follow.unwrap().confidence == f->Score_0.confidence
            &&& s.instruction_follow.unwrap().probabilities@ == f->Score_0.probabilities@
            &&& s.instruction_follow.unwrap().legend@ == f->Score_0.legend@
            &&& (s.task_fit is Some <==> answers.contains_key(TASK_FIT_QUESTION_ID@))
            &&& s.task_fit is Some ==> {
                &&& t is Score
                &&& s.task_fit.unwrap().score == t->Score_0.score
                &&& s.task_fit.unwrap().confidence == t->Score_0.confidence
                &&& s.task_fit.unwrap().probabilities@ == t->Score_0.probabilities@
                &&& s.task_fit.unwrap().legend@ == t->Score_0.legend@
            }
        }),
{
}

/// Reading a rubric depends on its own answer alone: two replies with the
/// same instruction-follow answer give the same instruction-follow rubric,
/// whatever their other answers, and likewise for quality.
pub proof fn lemma_rubric_reads_only_its_answer(
    a: Map<Seq<char>, Answer>,
    b: Map<Seq<char>, Answer>,
    ra: Result<OutcomeScores, String>,
    rb: Result<OutcomeScores, String>,
)
    requires
        scores_read(a, ra),
        scores_read(b, rb),
        ra is Ok,
        rb is Ok,
    ensures
        a[INSTRUCTION_FOLLOW_QUESTION_ID@] == b[INSTRUCTION_FOLLOW_QUESTION_ID@] ==> {
            let x = ra->Ok_0.instruction_follow.unwrap();
            let y = rb->Ok_0.instruction_follow.unwrap();
            x.score == y.score && x.confidence == y.confidence && x.probabilities@ == y.probabilities@
                && x.legend@ == y.legend@
        },
        a[QUALITY_QUESTION_ID@] == b[QUALITY_QUESTION_ID@] ==> {
            let x = ra->Ok_0.quality.unwrap();
            let y = rb->Ok_0.quality.unwrap();
            x.score == y.score && x.confidence == y.confidence && x.probabilities@ == y.probabilities@
                && x.legend@ == y.legend@
        },
{
    lemma_rubrics_from_own_answers(a, ra);
    lemma_rubrics_from_own_answers(b, rb);
}

/// Reads the rubric scores from a System One response.
pub fn parse_score_response(response: &SystemOneResponse) -> (r: Result<OutcomeScores, String>)
    ensures
        scores_read(response.answers@, r),
{
    let quality = match extract_rubric(response, QUALITY_QUESTION_ID) {
        Ok(s) => s,
        Err(e) => {
            return Err(e);
        },
    };
    let instruction_follow = match extract_rubric(response, INSTRUCTION_FOLLOW_QUESTION_ID) {
        Ok(s) => s,
        Err(e) => {
            return Err(e);
        },
    };
    let task_fit = if response.answers.contains_key(TASK_FIT_QUESTION_ID) {
        match extract_rubric(response, TASK_FIT_QUESTION_ID) {
            Ok(s) => Some(s),
            Err(e) => {
                return Err(e);
            },
        }
    } else {
        None
    };
    Ok(OutcomeScores { quality: Some(quality), instruction_follow: Some(instruction_follow), task_fit })
}

/// Whether to use the offline stub client, and the mode to record: the
/// stub when asked for, or when neither mode is asked for and no API key
/// is set; asking for live without a key is an error.
pub open spec fn client_mode_choice(stub: bool, live: bool, key_set: bool) -> Result<(bool, ClientMode), ()> {
    let use_stub = stub || (!live && !key_set);
    if live && !key_set {
        Err(())
    } else {
        Ok((use_stub && !live, if use_stub && !live { ClientMode::Stub } else { ClientMode::Live }))
    }
}

pub fn resolve_client_mode(stub: bool, live: bool, key_set: bool) -> (r: Result<(bool, ClientMode), String>)
    ensures
        match client_mode_choice(stub, live, key_set) {
            Ok(v) => r == Ok::<(bool, ClientMode), String>(v),
            Err(_) => r matches Err(m) && m@ == "--live requires TYPESAFE_API_KEY (optional TYPESAFE_BASE_URL)"@,
        },
{
    let use_stub = stub || (!live && !key_set);
    if live && !key_set {
        return Err("--live requires TYPESAFE_API_KEY (optional TYPESAFE_BASE_URL)".to_owned());
    }
    let mode = if use_stub && !live { ClientMode::Stub } else { ClientMode::Live };
    Ok((use_stub && !live, mode))
}

} // verus!
