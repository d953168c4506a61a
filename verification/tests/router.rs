use typesafe_llm_router::catalog::EnrichedCandidate;
use typesafe_llm_router::json::Json;
use typesafe_llm_router::pack::{pack_system_one_request, DEFAULT_SYSTEM_ONE_MODEL, ROUTE_QUESTION_ID, WHY_QUESTION_ID};
use typesafe_llm_router::router::{decision_from_response, fmt_token_est};
use typesafe_llm_router::typesafe::api::{Answer, ChoiceAnswer, Question, SystemOneResponse};
use typesafe_llm_router::keyed_map::KeyedMap;
use typesafe_llm_router::{
    ComplexityHint, DecisionReason, LatencyMode, LengthHint, MessageRole, ModelCatalog, PrefixReuse,
    Router, RouterError, RouterRequest, SessionMessage, StubTypesafeClient, TaskClass,
};

fn sample_request() -> RouterRequest {
    RouterRequest {
        session: vec![
            SessionMessage { role: MessageRole::System, content: "You are a helpful assistant.".into() },
            SessionMessage { role: MessageRole::User, content: "What is the capital of France?".into() },
        ],
        current_model: Some("composer-2.5".into()),
        allowlist: vec!["composer-2.5".into(), "grok-4.6".into(), "composer-2.5-fast".into()],
        task_class: Some(TaskClass::ShortClassify),
        length: Some(LengthHint::Short),
        complexity: Some(ComplexityHint::Simple),
        tools_required: Some(false),
        latency_mode: Some(LatencyMode::Batch),
        prefix_reuse: Some(PrefixReuse::Strong),
        prefix_tokens_est: Some(400),
        tokens_in_est: Some(500),
        tokens_out_est: Some(5),
    }
}

#[test]
fn stub_router_emits_required_decision_fields() {
    let catalog = ModelCatalog::demo();
    let client = StubTypesafeClient::new();
    let router = Router::new(&catalog, &client);
    let decision = router.route(&sample_request()).unwrap();
    assert!(!decision.chosen_model.is_empty());
    assert_eq!(decision.model, decision.chosen_model);
    assert!(decision.chosen_tier.is_some());
    assert!(!decision.alternatives_considered.is_empty());
    assert_eq!(decision.cache_hypothesis.strength, PrefixReuse::Strong);
    assert!(decision.rough_cost_note.contains("cache_read"));
    assert!(decision.primary_reason != DecisionReason::Unspecified || decision.why.primary == decision.primary_reason);
}

#[test]
fn stub_router_can_force_switch() {
    let catalog = ModelCatalog::demo();
    let client = StubTypesafeClient::with_force("composer-2.5-fast", "cost");
    let router = Router::new(&catalog, &client);
    let decision = router.route(&sample_request()).unwrap();
    assert_eq!(decision.chosen_model, "composer-2.5-fast");
    assert_eq!(decision.primary_reason, DecisionReason::Cost);
}

#[test]
fn stub_router_keeps_warm_current_model() {
    let catalog = ModelCatalog::demo();
    let client = StubTypesafeClient::new();
    let router = Router::new(&catalog, &client);
    let decision = router.route(&sample_request()).unwrap();
    assert_eq!(decision.chosen_model, "composer-2.5");
    assert_eq!(decision.primary_reason, DecisionReason::ContinueCurrent);
    assert_eq!(decision.confidence, Some(650_000));
    assert_eq!(decision.chosen_tier.as_deref(), Some("T-small"));
    assert_eq!(decision.alternatives_considered.len(), 2);
    let probs = decision.why.probabilities.as_ref().unwrap();
    assert_eq!(probs.get("composer-2.5"), Some(&700_000));
    assert_eq!(probs.get("grok-4.6"), Some(&150_000));
}

#[test]
fn forced_model_outside_allowlist_is_a_typesafe_error() {
    let catalog = ModelCatalog::demo();
    let client = StubTypesafeClient::with_force("grok-4.5", "cost");
    let router = Router::new(&catalog, &client);
    match router.route(&sample_request()) {
        Err(RouterError::Typesafe(e)) => assert_eq!(
            e,
            typesafe_llm_router::TypesafeError::UnexpectedAnswer("force_model `grok-4.5` not in criteria".into())
        ),
        other => panic!("unexpected {other:?}"),
    }
}

#[test]
fn route_reports_enrichment_errors() {
    let catalog = ModelCatalog::demo();
    let client = StubTypesafeClient::new();
    let router = Router::new(&catalog, &client).with_system_one_model("jev-test");
    assert_eq!(router.system_one_model, "jev-test");
    let mut req = sample_request();
    req.allowlist = vec![];
    assert!(matches!(router.route(&req), Err(RouterError::EmptyAllowlist)));
    let mut req = sample_request();
    req.allowlist = vec!["composer-2.5".into(), "unknown-x".into()];
    match router.route(&req) {
        Err(RouterError::MissingCatalogEntry(id)) => assert_eq!(id, "unknown-x"),
        other => panic!("unexpected {other:?}"),
    }
}

fn choice(id: &str, conf: u32) -> Answer {
    let mut probs = KeyedMap::new();
    probs.insert(id.to_string(), 1_000_000);
    Answer::Choice(ChoiceAnswer { choice: id.into(), probabilities: probs, confidence: conf })
}

#[test]
fn decision_from_response_checks_the_route_answer() {
    let req = sample_request();
    let catalog = ModelCatalog::demo();
    let rows: Vec<EnrichedCandidate> = catalog.enrich_allowlist(&req.allowlist, Some("composer-2.5")).unwrap();

    let empty = SystemOneResponse { model: "m".into(), answers: KeyedMap::new(), usage: None };
    match decision_from_response(&req, &rows, &empty) {
        Err(RouterError::InvalidDecision(m)) => assert_eq!(m, "missing route_to answer"),
        other => panic!("unexpected {other:?}"),
    }

    let mut answers = KeyedMap::new();
    answers.insert(ROUTE_QUESTION_ID.to_string(), choice("grok-4.5", 900_000));
    let outside = SystemOneResponse { model: "m".into(), answers, usage: None };
    match decision_from_response(&req, &rows, &outside) {
        Err(RouterError::InvalidDecision(m)) => assert_eq!(m, "TypeSafe chose `grok-4.5` which is not in the allowlist"),
        other => panic!("unexpected {other:?}"),
    }

    let mut answers = KeyedMap::new();
    answers.insert(ROUTE_QUESTION_ID.to_string(), choice("grok-4.6", 900_000));
    answers.insert(WHY_QUESTION_ID.to_string(), choice("quality", 800_000));
    let ok = SystemOneResponse { model: "m".into(), answers, usage: None };
    let d = decision_from_response(&req, &rows, &ok).unwrap();
    assert_eq!(d.chosen_model, "grok-4.6");
    assert_eq!(d.model, "grok-4.6");
    assert_eq!(d.primary_reason, DecisionReason::Quality);
    assert_eq!(d.why.primary, DecisionReason::Quality);
    assert_eq!(d.confidence, Some(900_000));
    assert_eq!(d.chosen_tier.as_deref(), Some("T-mid"));
    assert_eq!(d.why.summary, "switch `composer-2.5` → `grok-4.6` [T-mid]; primary axis: quality (confidence=0.90)");
}

#[test]
fn pack_includes_route_why_and_signals() {
    let catalog = ModelCatalog::demo();
    let request = RouterRequest {
        session: vec![SessionMessage { role: MessageRole::User, content: "Summarize the thread so far.".into() }],
        current_model: Some("composer-2.5".into()),
        allowlist: vec!["composer-2.5".into(), "grok-4.5".into()],
        task_class: Some(TaskClass::Code),
        length: None,
        complexity: None,
        tools_required: Some(false),
        latency_mode: None,
        prefix_reuse: Some(PrefixReuse::Weak),
        prefix_tokens_est: Some(200),
        tokens_in_est: None,
        tokens_out_est: None,
    };
    let candidates = catalog.enrich_allowlist(&request.allowlist, request.current_model.as_deref()).unwrap();
    let packed = pack_system_one_request(&request, &candidates, DEFAULT_SYSTEM_ONE_MODEL);
    assert_eq!(packed.model, "jev-latest");
    assert!(packed.questions.contains_key(ROUTE_QUESTION_ID));
    assert!(packed.questions.contains_key(WHY_QUESTION_ID));
    let signals = packed.state.get("signals").unwrap();
    assert_eq!(signals.get("task_class").and_then(|v| v.as_text()), Some("code"));
    assert_eq!(signals.get("prefix_reuse").and_then(|v| v.as_text()), Some("weak"));
    assert!(matches!(packed.questions.get(ROUTE_QUESTION_ID), Some(Question::Choice(_))));
    match packed.questions.get(ROUTE_QUESTION_ID) {
        Some(Question::Choice(c)) => {
            assert_eq!(c.criteria.keys(), vec!["composer-2.5".to_string(), "grok-4.5".to_string()]);
        }
        _ => panic!("route_to must be a Choice"),
    }
    match packed.questions.get(WHY_QUESTION_ID) {
        Some(Question::Choice(c)) => assert!(c.criteria.contains_key("continue_current")),
        _ => panic!("primary_reason must be a Choice"),
    }
    assert_eq!(packed.state.get("policy_ref").and_then(|v| v.as_text()), Some("docs/decision-rules"));
    assert_eq!(packed.state.get("candidates").and_then(|v| v.as_array()).map(|a| a.len()), Some(2));
    assert!(matches!(packed.state.get("current_model"), Some(Json::Str(_))));
}

fn float_token_est(n: u32) -> String {
    if n < 100 {
        format!("{n}")
    } else {
        format!("{:.1}K", n as f64 / 1000.0)
    }
}

#[test]
fn token_estimates_round_as_float_formatting() {
    assert_eq!(fmt_token_est(1050), "1.1K");
    assert_eq!(fmt_token_est(1250), "1.2K");
    assert_eq!(fmt_token_est(99), "99");
    for n in 0u32..200_000 {
        assert_eq!(fmt_token_est(n), float_token_est(n), "n = {n}");
    }
    let mut n: u64 = 200_050;
    while n <= u32::MAX as u64 {
        let m = n as u32;
        assert_eq!(fmt_token_est(m), float_token_est(m), "n = {m}");
        n += 99_700;
    }
    assert_eq!(fmt_token_est(u32::MAX), float_token_est(u32::MAX));
}
