use std::collections::HashMap;

use typesafe_llm_router::model_provider::stub::guessed_fixture;
use typesafe_llm_router::model_provider::{CompleteRequest, CompleteResponse, ModelInfo};
use typesafe_llm_router::score_queue::{apply_score_result, execution_request, next_job_name, run_score_job};
use typesafe_llm_router::{ModelProviderError, StubModelSource};
use typesafe_llm_router::typesafe::api::SystemOneResponse;
use typesafe_llm_router::keyed_map::KeyedMap;
use typesafe_llm_router::{
    complete_turn_hot_path, complete_turn_with_model_provider, drain_score_queue, ClientMode, InMemoryScoreQueue,
    MessageRole, ModelCatalog, ModelProvider, OutcomeStore, PrefixReuse, RouteOutcome, Router, RouterError,
    RouterRequest, ScoreQueue, ScoresStatus, SessionMessage, StubModelProvider, StubTypesafeClient, TaskClass,
    TypesafeError,
};

struct MemStore {
    inner: HashMap<String, RouteOutcome>,
}

impl OutcomeStore for MemStore {
    fn save(&mut self, outcome: &RouteOutcome) -> Result<(), RouterError> {
        self.inner.insert(outcome.outcome_id.clone(), outcome.clone());
        Ok(())
    }

    fn load(&self, outcome_id: &str) -> Result<RouteOutcome, RouterError> {
        self.inner.get(outcome_id).cloned().ok_or_else(|| RouterError::InvalidDecision(format!("missing {outcome_id}")))
    }
}

#[test]
fn hot_path_returns_pending_without_scores() {
    let catalog = ModelCatalog::demo();
    let client = StubTypesafeClient::new();
    let router = Router::new(&catalog, &client);
    let request = RouterRequest {
        session: vec![SessionMessage { role: MessageRole::User, content: "label this: billing".into() }],
        current_model: None,
        allowlist: vec!["composer-2.5".into(), "grok-4.6".into()],
        task_class: Some(TaskClass::ShortClassify),
        length: None,
        complexity: None,
        tools_required: Some(false),
        latency_mode: None,
        prefix_reuse: None,
        prefix_tokens_est: None,
        tokens_in_est: None,
        tokens_out_est: None,
    };
    let mut queue = InMemoryScoreQueue::new();
    let mut store = MemStore { inner: HashMap::new() };
    let result = complete_turn_hot_path(&router, &request, "billing", Some(1), ClientMode::Stub, &mut queue, &mut store)
        .unwrap();
    assert_eq!(result.outcome.scores_status, ScoresStatus::Pending);
    assert!(result.outcome.scores.is_none());
    assert_eq!(queue.len().unwrap(), 1);

    let drained = drain_score_queue(&client, &mut queue, &mut store, 10).unwrap();
    assert_eq!(drained.len(), 1);
    assert_eq!(drained[0].scores_status, ScoresStatus::Scored);
    assert!(drained[0].scores.as_ref().unwrap().quality.is_some());
    assert!(drained[0].scores.as_ref().unwrap().instruction_follow.is_some());
}

#[test]
fn chosen_model_equals_model_provider_complete_id() {
    let src = StubModelProvider::with_task_class(Some(TaskClass::ShortClassify));
    let models = src.list_models().unwrap();
    let catalog = ModelCatalog::from_model_infos(&models);
    let client = StubTypesafeClient::new();
    let router = Router::new(&catalog, &client);
    let request = RouterRequest {
        session: vec![
            SessionMessage { role: MessageRole::System, content: "Reply with one label only.".into() },
            SessionMessage { role: MessageRole::User, content: "I was charged twice.".into() },
        ],
        current_model: Some("composer-2.5".into()),
        allowlist: models.iter().map(|m| m.id.clone()).collect(),
        task_class: Some(TaskClass::ShortClassify),
        length: None,
        complexity: None,
        tools_required: Some(false),
        latency_mode: None,
        prefix_reuse: Some(PrefixReuse::Strong),
        prefix_tokens_est: Some(400),
        tokens_in_est: Some(500),
        tokens_out_est: Some(5),
    };
    let mut queue = InMemoryScoreQueue::new();
    let mut store = MemStore { inner: HashMap::new() };
    let result = complete_turn_with_model_provider(&router, &request, &src, ClientMode::Stub, &mut queue, &mut store, None)
        .unwrap();
    assert!(models.iter().any(|m| m.id == result.decision.chosen_model), "chosen_model must be a list_models id");
    assert_eq!(result.outcome.model_output, "billing");
    assert!(!result.decision.rough_cost_note.is_empty());
    assert!(result.decision.rough_cost_note.contains("cache_read"));
    let exec = execution_request(&result.decision, &request, None);
    assert_eq!(exec.model_id, result.decision.chosen_model);
}

#[test]
fn queue_is_first_in_first_out() {
    let catalog = ModelCatalog::demo();
    let client = StubTypesafeClient::new();
    let router = Router::new(&catalog, &client);
    let request = RouterRequest {
        session: vec![SessionMessage { role: MessageRole::User, content: "a".into() }],
        current_model: None,
        allowlist: vec!["grok-4.6".into()],
        task_class: None,
        length: None,
        complexity: None,
        tools_required: None,
        latency_mode: None,
        prefix_reuse: None,
        prefix_tokens_est: None,
        tokens_in_est: None,
        tokens_out_est: None,
    };
    let mut queue = InMemoryScoreQueue::new();
    let mut store = MemStore { inner: HashMap::new() };
    let first = complete_turn_hot_path(&router, &request, "one", None, ClientMode::Stub, &mut queue, &mut store).unwrap();
    let second = complete_turn_hot_path(&router, &request, "two", None, ClientMode::Stub, &mut queue, &mut store).unwrap();
    assert_eq!(queue.len().unwrap(), 2);
    assert_eq!(queue.is_empty().unwrap(), false);
    let a = queue.dequeue().unwrap().unwrap();
    let b = queue.dequeue().unwrap().unwrap();
    assert_eq!(a.job_id, first.score_job_id);
    assert_eq!(b.job_id, second.score_job_id);
    assert_eq!(a.chosen_model, "grok-4.6");
    assert!(queue.dequeue().unwrap().is_none());
    assert_eq!(queue.is_empty().unwrap(), true);
}

#[test]
fn score_failure_marks_outcome_failed() {
    let catalog = ModelCatalog::demo();
    let client = StubTypesafeClient::new();
    let router = Router::new(&catalog, &client);
    let request = RouterRequest {
        session: vec![],
        current_model: None,
        allowlist: vec!["grok-4.6".into()],
        task_class: None,
        length: None,
        complexity: None,
        tools_required: None,
        latency_mode: None,
        prefix_reuse: None,
        prefix_tokens_est: None,
        tokens_in_est: None,
        tokens_out_est: None,
    };
    let mut queue = InMemoryScoreQueue::new();
    let mut store = MemStore { inner: HashMap::new() };
    let hot = complete_turn_hot_path(&router, &request, "x", None, ClientMode::Live, &mut queue, &mut store).unwrap();
    let mut o = hot.outcome.clone();
    apply_score_result(&mut o, Err(TypesafeError::Api { status: 503, body: "busy".into() }));
    assert_eq!(o.scores_status, ScoresStatus::Failed);
    assert_eq!(o.score_error.as_deref(), Some("TypeSafe API returned HTTP 503: busy"));
    let mut o2 = hot.outcome.clone();
    apply_score_result(&mut o2, Ok(SystemOneResponse { model: "m".into(), answers: KeyedMap::new(), usage: None }));
    assert_eq!(o2.scores_status, ScoresStatus::Failed);
    assert_eq!(o2.score_error.as_deref(), Some("missing Score answer `quality`"));
}

#[test]
fn drain_takes_at_most_max_and_saves_each_outcome() {
    let catalog = ModelCatalog::demo();
    let client = StubTypesafeClient::new();
    let router = Router::new(&catalog, &client);
    let request = RouterRequest {
        session: vec![SessionMessage { role: MessageRole::User, content: "label this: billing".into() }],
        current_model: None,
        allowlist: vec!["grok-4.6".into()],
        task_class: Some(TaskClass::ShortClassify),
        length: None,
        complexity: None,
        tools_required: None,
        latency_mode: None,
        prefix_reuse: None,
        prefix_tokens_est: None,
        tokens_in_est: None,
        tokens_out_est: None,
    };
    let mut queue = InMemoryScoreQueue::new();
    let mut store = MemStore { inner: HashMap::new() };
    let first = complete_turn_hot_path(&router, &request, "billing", None, ClientMode::Stub, &mut queue, &mut store).unwrap();
    assert_eq!(store.load(&first.outcome.outcome_id).unwrap().scores_status, ScoresStatus::Pending);
    complete_turn_hot_path(&router, &request, "billing", None, ClientMode::Stub, &mut queue, &mut store).unwrap();
    let drained = drain_score_queue(&client, &mut queue, &mut store, 1).unwrap();
    assert_eq!(drained.len(), 1);
    assert_eq!(queue.len().unwrap(), 1);
    let saved = store.load(&drained[0].outcome_id).unwrap();
    assert_eq!(saved.scores_status, ScoresStatus::Scored);
    let rest = drain_score_queue(&client, &mut queue, &mut store, 5).unwrap();
    assert_eq!(rest.len(), 1);
    assert_eq!(queue.is_empty().unwrap(), true);
}

struct FailingProvider;

impl ModelProvider for FailingProvider {
    fn name(&self) -> &'static str {
        "failing"
    }

    fn list_models(&self) -> Result<Vec<ModelInfo>, ModelProviderError> {
        Ok(vec![])
    }

    fn complete(&self, _req: &CompleteRequest) -> Result<CompleteResponse, ModelProviderError> {
        Err(ModelProviderError::DatabricksHttp("down".into()))
    }
}

#[test]
fn provider_failure_saves_and_queues_nothing() {
    let catalog = ModelCatalog::demo();
    let client = StubTypesafeClient::new();
    let router = Router::new(&catalog, &client);
    let request = RouterRequest {
        session: vec![SessionMessage { role: MessageRole::User, content: "hi".into() }],
        current_model: None,
        allowlist: vec!["grok-4.6".into()],
        task_class: None,
        length: None,
        complexity: None,
        tools_required: None,
        latency_mode: None,
        prefix_reuse: None,
        prefix_tokens_est: None,
        tokens_in_est: None,
        tokens_out_est: None,
    };
    let mut queue = InMemoryScoreQueue::new();
    let mut store = MemStore { inner: HashMap::new() };
    let r = complete_turn_with_model_provider(&router, &request, &FailingProvider, ClientMode::Stub, &mut queue, &mut store, None);
    assert!(matches!(r, Err(RouterError::ModelProvider(ModelProviderError::DatabricksHttp(ref m))) if m == "down"));
    assert_eq!(queue.len().unwrap(), 0);
    assert!(store.inner.is_empty());
    let empty = RouterRequest { allowlist: vec![], ..request };
    let r2 = complete_turn_hot_path(&router, &empty, "x", None, ClientMode::Stub, &mut queue, &mut store);
    assert!(matches!(r2, Err(RouterError::EmptyAllowlist)));
    assert_eq!(queue.len().unwrap(), 0);
    assert!(store.inner.is_empty());
}

#[test]
fn stub_guess_reads_lowercased_prompt() {
    assert_eq!(guessed_fixture("please label this support ticket", "m"), "billing");
    assert_eq!(guessed_fixture("pagination bug", "m"), "Fixed off-by-one: use `items.slice(start, start + pageSize)`.");
    assert_eq!(guessed_fixture("hello", "grok-4.6"), "[stub:grok-4.6] ok");
    let src = StubModelSource::with_task_class(None);
    let out = src.complete(&execution_request_for("grok-4.6", "PAGINATION is off")).unwrap();
    assert_eq!(out.model_output, "Fixed off-by-one: use `items.slice(start, start + pageSize)`.");
    assert!(StubModelSource::new().task_class.is_none());
}

fn execution_request_for(model: &str, text: &str) -> CompleteRequest {
    typesafe_llm_router::complete_request_from_session(
        model,
        &[SessionMessage { role: MessageRole::User, content: text.into() }],
        None,
    )
}

#[test]
fn next_job_name_picks_the_least_name() {
    let names: Vec<String> = vec!["score_20.json".into(), "score_1.json".into(), "score_3.json".into()];
    assert_eq!(next_job_name(&names), Some(1));
    assert_eq!(next_job_name(&[]), None);
    assert_eq!(next_job_name(&["a".to_string()]), Some(0));
}

#[test]
fn run_score_job_returns_a_load_error_unchanged() {
    let catalog = ModelCatalog::demo();
    let client = StubTypesafeClient::new();
    let router = Router::new(&catalog, &client);
    let request = RouterRequest {
        session: vec![SessionMessage { role: MessageRole::User, content: "hi".into() }],
        current_model: None,
        allowlist: vec!["grok-4.6".into()],
        task_class: None,
        length: None,
        complexity: None,
        tools_required: None,
        latency_mode: None,
        prefix_reuse: None,
        prefix_tokens_est: None,
        tokens_in_est: None,
        tokens_out_est: None,
    };
    let mut queue = InMemoryScoreQueue::new();
    let mut store = MemStore { inner: HashMap::new() };
    complete_turn_hot_path(&router, &request, "x", None, ClientMode::Stub, &mut queue, &mut store).unwrap();
    let job = queue.dequeue().unwrap().unwrap();
    let mut empty = MemStore { inner: HashMap::new() };
    let r = run_score_job(&client, &mut empty, &job);
    let expected = format!("missing {}", job.outcome_id);
    assert!(matches!(r, Err(RouterError::InvalidDecision(ref m)) if *m == expected));
    assert!(empty.inner.is_empty());
}
