use std::cell::RefCell;

use typesafe_llm_router::json::Json;
use typesafe_llm_router::model_provider::databricks_ai_gateway::build_chat_request;
use typesafe_llm_router::{
    allowlist_from_provider, complete_turn_with_model_provider, drain_score_queue, ClientMode, CompleteRequest,
    CompleteResponse, DatabricksAiGatewayProvider, DatabricksGatewayPath, InMemoryScoreQueue, MessageRole,
    ModelCatalog, ModelInfo, ModelProvider, ModelProviderError, ModelTier, OutcomeStore, RouteOutcome, Router,
    RouterError, RouterRequest, ScoreQueue, ScoresStatus, SessionMessage, StubModelProvider, StubTypesafeClient,
    TaskClass,
};

struct CapturingStore {
    outcomes: Vec<RouteOutcome>,
}

impl OutcomeStore for CapturingStore {
    fn save(&mut self, outcome: &RouteOutcome) -> Result<(), RouterError> {
        self.outcomes.push(outcome.clone());
        Ok(())
    }

    fn load(&self, outcome_id: &str) -> Result<RouteOutcome, RouterError> {
        self.outcomes
            .iter()
            .rev()
            .find(|o| o.outcome_id == outcome_id)
            .cloned()
            .ok_or_else(|| RouterError::Config(format!("missing outcome {outcome_id}")))
    }
}

fn short_classify_request(allowlist: Vec<String>) -> RouterRequest {
    RouterRequest {
        session: vec![
            SessionMessage { role: MessageRole::System, content: "Reply with one support label only.".into() },
            SessionMessage { role: MessageRole::User, content: "I was charged twice on my card.".into() },
        ],
        allowlist,
        current_model: None,
        task_class: Some(TaskClass::ShortClassify),
        length: None,
        complexity: None,
        tools_required: None,
        latency_mode: None,
        prefix_reuse: None,
        prefix_tokens_est: None,
        tokens_in_est: None,
        tokens_out_est: None,
    }
}

#[test]
fn stub_provider_hot_path_enqueues_score_without_blocking() {
    let provider = StubModelProvider::with_task_class(Some(TaskClass::ShortClassify));
    let models = provider.list_models().unwrap();
    let (allowlist, catalog) = allowlist_from_provider(&models, &[], None).unwrap();
    let mut request = short_classify_request(allowlist);
    request.current_model = Some("composer-2.5".into());

    let client = StubTypesafeClient::new();
    let router = Router::new(&catalog, &client).with_system_one_model("jev-latest");
    let mut queue = InMemoryScoreQueue::new();
    let mut store = CapturingStore { outcomes: Vec::new() };

    let hot = complete_turn_with_model_provider(&router, &request, &provider, ClientMode::Stub, &mut queue, &mut store, None)
        .unwrap();

    assert_eq!(hot.outcome.model_output, "billing");
    assert_eq!(hot.decision.chosen_model, hot.outcome.decision.chosen_model);
    assert_eq!(hot.outcome.scores_status, ScoresStatus::Pending);
    assert_eq!(queue.len().unwrap(), 1);
    assert_eq!(store.outcomes.len(), 1);

    let scored = drain_score_queue(&client, &mut queue, &mut store, 8).unwrap();
    assert_eq!(scored.len(), 1);
    assert_eq!(scored[0].scores_status, ScoresStatus::Scored);
    assert!(scored[0].scores.is_some());
    assert_eq!(queue.len().unwrap(), 0);
}

fn to_json(v: &serde_json::Value) -> Json {
    match v {
        serde_json::Value::Null => Json::Null,
        serde_json::Value::Bool(b) => Json::Bool(*b),
        serde_json::Value::Number(n) => match n.as_i64() {
            Some(i) => Json::Int(i as i128),
            None => Json::Fixed((n.as_f64().unwrap() * 1_000_000.0).round() as i128),
        },
        serde_json::Value::String(s) => Json::Str(s.clone()),
        serde_json::Value::Array(a) => Json::Array(a.iter().map(to_json).collect()),
        serde_json::Value::Object(m) => Json::Object(m.iter().map(|(k, v)| (k.clone(), to_json(v))).collect()),
    }
}

/// The gateway provider with a canned reply in place of the network.
struct MockDbx {
    config: DatabricksAiGatewayProvider,
    body: String,
    sent: RefCell<Vec<String>>,
}

impl ModelProvider for MockDbx {
    fn name(&self) -> &'static str {
        self.config.name()
    }

    fn list_models(&self) -> Result<Vec<ModelInfo>, ModelProviderError> {
        Ok(self.config.list_models())
    }

    fn complete(&self, req: &CompleteRequest) -> Result<CompleteResponse, ModelProviderError> {
        let body = build_chat_request(req);
        self.sent.borrow_mut().push(body.model.clone());
        let url = self.config.chat_completions_url();
        let parsed = serde_json::from_str::<serde_json::Value>(&self.body).map(|v| to_json(&v)).map_err(|e| e.to_string());
        self.config.completion_from_reply(req, &url, 200, &self.body, parsed)
    }
}

#[test]
fn databricks_provider_integrates_with_choice_hot_path() {
    let models = vec![ModelInfo {
        id: "system.ai.sonnet-4-5".into(),
        label: Some("test".into()),
        price_input_per_mtok: 3_000_000,
        price_output_per_mtok: 15_000_000,
        price_cache_read_per_mtok: Some(300_000),
        price_cache_write_per_mtok: None,
        tier_hint: Some(ModelTier::Mid),
    }];
    let config = DatabricksAiGatewayProvider::new(
        "https://example.databricks.com",
        "test-token",
        models.clone(),
        DatabricksGatewayPath::ModelService,
        None,
    )
    .unwrap();
    let provider = MockDbx {
        config,
        body: r#"{
            "id":"chatcmpl-int",
            "choices":[{"message":{"role":"assistant","content":"billing"}}],
            "usage":{"prompt_tokens":20,"completion_tokens":1}
        }"#
        .into(),
        sent: RefCell::new(Vec::new()),
    };

    let (allowlist, catalog) = allowlist_from_provider(&models, &[], None).unwrap();
    let request = short_classify_request(allowlist);
    let client = StubTypesafeClient::new();
    let router = Router::new(&catalog, &client);
    let mut queue = InMemoryScoreQueue::new();
    let mut store = CapturingStore { outcomes: Vec::new() };

    let hot = complete_turn_with_model_provider(&router, &request, &provider, ClientMode::Stub, &mut queue, &mut store, None)
        .unwrap();

    assert_eq!(hot.outcome.model_output, "billing");
    assert_eq!(hot.decision.chosen_model, "system.ai.sonnet-4-5");
    assert_eq!(hot.outcome.scores_status, ScoresStatus::Pending);
    assert_eq!(provider.name(), "databricks-ai-gateway");
    assert_eq!(provider.sent.borrow().as_slice(), &["system.ai.sonnet-4-5".to_string()]);
    assert_eq!(hot.outcome.output_tokens_est, Some(1));
}

#[test]
fn catalog_from_provider_prices_feeds_choice() {
    let provider = StubModelProvider::new();
    let models = provider.list_models().unwrap();
    let catalog = ModelCatalog::from_model_infos(&models);
    let cheap = catalog.models.get("composer-2.5").unwrap();
    // $1.00 per MTok, in micro-USD.
    assert_eq!(cheap.input_usd_per_mtok, 1_000_000);
    assert!(cheap.cache_eligible);
}
