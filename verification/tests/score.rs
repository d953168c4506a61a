use typesafe_llm_router::keyed_map::KeyedMap;
use typesafe_llm_router::score::{
    incoming_prompt_from_session, new_id, pack_score_request, parse_score_response, score_state_preview,
    unix_timestamp_string,
};
use typesafe_llm_router::typesafe::api::{Answer, Question, ScoreAnswer, SystemOneResponse};
use typesafe_llm_router::{
    CacheHypothesis, ClientMode, DecisionReason, MessageRole, PrefixReuse, RouteOutcome, RouterDecision,
    RouterRequest, ScoreJob, ScoresStatus, SessionMessage, WhyTradeoff, INSTRUCTION_FOLLOW_QUESTION_ID,
    QUALITY_QUESTION_ID, TASK_FIT_QUESTION_ID,
};

fn minimal_decision() -> RouterDecision {
    RouterDecision {
        chosen_model: "composer-2.5".into(),
        chosen_tier: Some("T-small".into()),
        primary_reason: DecisionReason::Cost,
        alternatives_considered: vec![],
        cache_hypothesis: CacheHypothesis { strength: PrefixReuse::NoReuse, rationale: "n/a".into() },
        rough_cost_note: "placeholder".into(),
        confidence: Some(500_000),
        open_risk: None,
        model: "composer-2.5".into(),
        why: WhyTradeoff { primary: DecisionReason::Cost, summary: "test".into(), confidence: Some(500_000), probabilities: None },
    }
}

fn job(typesafe_model: &str) -> ScoreJob {
    ScoreJob {
        job_id: "j1".into(),
        outcome_id: "o1".into(),
        typesafe_model: typesafe_model.into(),
        incoming_prompt: "hi".into(),
        chosen_model: "composer-2.5".into(),
        model_output: "hello".into(),
        task_class: None,
        decision: minimal_decision(),
        include_task_fit: false,
        enqueued_at: "0".into(),
    }
}

#[test]
fn pack_score_includes_quality_and_instruction_follow() {
    let req = pack_score_request(&job("jev-latest"), false);
    assert!(req.questions.contains_key(QUALITY_QUESTION_ID));
    assert!(req.questions.contains_key(INSTRUCTION_FOLLOW_QUESTION_ID));
    assert!(!req.questions.contains_key(TASK_FIT_QUESTION_ID));
    match req.questions.get(QUALITY_QUESTION_ID).unwrap() {
        Question::Score(s) => assert_eq!(s.criteria.len(), 4),
        other => panic!("expected Score, got {other:?}"),
    }
}

#[test]
fn pack_score_task_fit_and_default_model() {
    let req = pack_score_request(&job(""), true);
    assert_eq!(req.model, "jev-latest");
    match req.questions.get(TASK_FIT_QUESTION_ID).unwrap() {
        Question::Score(s) => assert_eq!(s.criteria[2], "Strong task match"),
        other => panic!("expected Score, got {other:?}"),
    }
    let state = score_state_preview(&job("m"));
    assert_eq!(state.get("incoming_prompt").and_then(|v| v.as_text()), Some("hi"));
    let decision = state.get("decision").unwrap();
    assert_eq!(decision.get("primary_reason").and_then(|v| v.as_text()), Some("cost"));
    assert_eq!(
        decision.get("cache_hypothesis").and_then(|c| c.get("strength")).and_then(|v| v.as_text()),
        Some("none")
    );
}

fn map_of<V>(entries: Vec<(&str, V)>) -> KeyedMap<V> {
    let mut m = KeyedMap::new();
    for (k, v) in entries {
        m.insert(k.to_string(), v);
    }
    m
}

#[test]
fn parse_score_response_reads_rubrics() {
    let mut answers = KeyedMap::new();
    answers.insert(
        QUALITY_QUESTION_ID.to_string(),
        Answer::Score(ScoreAnswer {
            score: 2_100_000,
            legend: map_of(vec![
                ("0", "Wrong/unusable".to_string()),
                ("1", "Partially correct".to_string()),
                ("2", "Correct usable".to_string()),
                ("3", "Correct + robust".to_string()),
            ]),
            probabilities: map_of(vec![("0", 50_000), ("1", 150_000), ("2", 600_000), ("3", 200_000)]),
            confidence: 700_000,
        }),
    );
    answers.insert(
        INSTRUCTION_FOLLOW_QUESTION_ID.to_string(),
        Answer::Score(ScoreAnswer {
            score: 1_800_000,
            legend: map_of(vec![
                ("0", "Ignores constraints".to_string()),
                ("1", "Mostly follows".to_string()),
                ("2", "Follows cleanly".to_string()),
            ]),
            probabilities: map_of(vec![("0", 100_000), ("1", 200_000), ("2", 700_000)]),
            confidence: 800_000,
        }),
    );
    let response = SystemOneResponse { model: "jev-latest".into(), answers, usage: None };
    let scores = parse_score_response(&response).unwrap();
    assert_eq!(scores.quality.as_ref().unwrap().score, 2_100_000);
    assert!(scores.task_fit.is_none());
}

#[test]
fn parse_score_response_reports_missing_rubric() {
    let response = SystemOneResponse { model: "m".into(), answers: KeyedMap::new(), usage: None };
    assert_eq!(parse_score_response(&response).unwrap_err(), "missing Score answer `quality`");
}

#[test]
fn incoming_prompt_prefers_last_user_message() {
    let m = |role, c: &str| SessionMessage { role, content: c.into() };
    let s = vec![m(MessageRole::User, "first"), m(MessageRole::User, "second"), m(MessageRole::Assistant, "reply")];
    assert_eq!(incoming_prompt_from_session(&s), "second");
    let s = vec![m(MessageRole::System, "sys"), m(MessageRole::Assistant, "reply")];
    assert_eq!(incoming_prompt_from_session(&s), "reply");
    assert_eq!(incoming_prompt_from_session(&[]), "");
}

#[test]
fn pending_outcome_then_scoring_transitions() {
    let request = RouterRequest {
        session: vec![],
        current_model: None,
        allowlist: vec!["composer-2.5".into()],
        task_class: None,
        length: None,
        complexity: None,
        tools_required: Some(true),
        latency_mode: None,
        prefix_reuse: None,
        prefix_tokens_est: None,
        tokens_in_est: None,
        tokens_out_est: None,
    };
    let mut o = RouteOutcome::pending("o1", &request, minimal_decision(), "out", Some(3), ClientMode::Stub, "jev-latest");
    assert_eq!(o.scores_status, ScoresStatus::Pending);
    assert!(o.scores.is_none() && o.scored_at.is_none() && o.score_error.is_none());
    assert_eq!(o.tools_required, Some(true));
    assert!(o.created_at.chars().all(|c| c.is_ascii_digit()));
    o.mark_scored_failed("boom");
    assert_eq!(o.scores_status, ScoresStatus::Failed);
    assert_eq!(o.score_error.as_deref(), Some("boom"));
    assert!(o.scored_at.is_some());
    o.mark_scored_ok(typesafe_llm_router::OutcomeScores { quality: None, instruction_follow: None, task_fit: None });
    assert_eq!(o.scores_status, ScoresStatus::Scored);
    assert!(o.score_error.is_none());
    assert_eq!(o.model_output, "out");
}

#[test]
fn ids_and_timestamps_are_decimal() {
    let id = new_id("out");
    assert!(id.starts_with("out_"));
    assert!(id["out_".len()..].chars().all(|c| c.is_ascii_digit()));
    assert!(unix_timestamp_string().chars().all(|c| c.is_ascii_digit()));
}
