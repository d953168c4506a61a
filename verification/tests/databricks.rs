use typesafe_llm_router::json::Json;
use typesafe_llm_router::model_provider::databricks_ai_gateway::{MLFLOW_CHAT_PATH, OPENAI_CHAT_PATH};
use typesafe_llm_router::model_provider::databricks_ai_gateway::{build_chat_request, models_from_list};
use typesafe_llm_router::{
    default_databricks_catalog, normalize_host, CompleteRequest, DatabricksAiGatewayProvider,
    DatabricksGatewayPath, MessageRole, ModelInfo, ModelProviderError, ModelRuntime, ModelTier,
    SessionMessage,
};

fn to_json(v: &serde_json::Value) -> Json {
    match v {
        serde_json::Value::Null => Json::Null,
        serde_json::Value::Bool(b) => Json::Bool(*b),
        serde_json::Value::Number(n) => {
            if let Some(i) = n.as_i64() {
                Json::Int(i as i128)
            } else if let Some(u) = n.as_u64() {
                Json::Int(u as i128)
            } else {
                Json::Fixed((n.as_f64().unwrap() * 1_000_000.0).round() as i128)
            }
        }
        serde_json::Value::String(s) => Json::Str(s.clone()),
        serde_json::Value::Array(a) => Json::Array(a.iter().map(to_json).collect()),
        serde_json::Value::Object(m) => Json::Object(m.iter().map(|(k, v)| (k.clone(), to_json(v))).collect()),
    }
}

fn parse(text: &str) -> Result<Json, String> {
    serde_json::from_str::<serde_json::Value>(text).map(|v| to_json(&v)).map_err(|e| e.to_string())
}

fn request(model_id: &str, prompt: &str, messages: Option<Vec<SessionMessage>>, params: Option<Json>) -> CompleteRequest {
    CompleteRequest {
        model_id: model_id.into(),
        prompt: prompt.into(),
        messages,
        cwd: None,
        runtime: ModelRuntime::Local,
        cloud_repos: None,
        model_params: params,
        timeout_ms: None,
    }
}

fn provider(path: DatabricksGatewayPath, service: Option<String>) -> DatabricksAiGatewayProvider {
    match DatabricksAiGatewayProvider::new("https://example.databricks.com", "tok", default_databricks_catalog(), path, service) {
        Ok(p) => p,
        Err(e) => panic!("unexpected {e:?}"),
    }
}

#[test]
fn normalize_host_adds_https() {
    assert_eq!(normalize_host("adb-123.azuredatabricks.net"), "https://adb-123.azuredatabricks.net");
    assert_eq!(normalize_host("https://adb-123.azuredatabricks.net/"), "https://adb-123.azuredatabricks.net");
}

#[test]
fn normalize_host_trims_and_keeps_http() {
    assert_eq!(normalize_host("  http://host.example//  "), "http://host.example");
    assert_eq!(normalize_host("\thost.example\n"), "https://host.example");
}

#[test]
fn chat_url_mlflow_vs_openai() {
    let mlflow = provider(DatabricksGatewayPath::ModelService, None);
    assert!(mlflow.chat_completions_url().ends_with(MLFLOW_CHAT_PATH));
    let openai = provider(DatabricksGatewayPath::ModelProviderService, Some("main.default.openai_prod".into()));
    assert!(openai.chat_completions_url().ends_with(OPENAI_CHAT_PATH));
    assert_eq!(
        openai.chat_completions_url(),
        "https://example.databricks.com/ai-gateway/openai/v1/chat/completions"
    );
}

#[test]
fn complete_posts_openai_compatible_body_and_parses_content() {
    let provider = DatabricksAiGatewayProvider::new(
        "https://example.databricks.com",
        "secret-token",
        default_databricks_catalog(),
        DatabricksGatewayPath::ModelService,
        None,
    )
    .unwrap();
    let params = to_json(&serde_json::from_str(r#"{"max_tokens": 64, "temperature": 0.0}"#).unwrap());
    let req = request(
        "system.ai.sonnet-4-5",
        "[system]\nlabel\n\n[user]\nticket",
        Some(vec![
            SessionMessage { role: MessageRole::System, content: "Reply with one label.".into() },
            SessionMessage { role: MessageRole::User, content: "I was charged twice.".into() },
        ]),
        Some(params),
    );
    let body = build_chat_request(&req);
    assert_eq!(body.model, "system.ai.sonnet-4-5");
    assert_eq!(body.max_tokens, Some(64));
    assert_eq!(body.temperature, Some(Json::Fixed(0)));
    assert_eq!(body.messages.len(), 2);
    assert_eq!(body.messages[0].role, "system");
    assert_eq!(body.messages[1].role, "user");
    assert_eq!(body.stream, Some(false));

    let headers = provider.header_pairs();
    assert_eq!(headers[0], ("authorization".to_string(), "Bearer secret-token".to_string()));

    let url = provider.chat_completions_url();
    let text = r#"{
      "id": "chatcmpl-test",
      "choices": [{"message": {"role": "assistant", "content": "billing"}}],
      "usage": {"prompt_tokens": 12, "completion_tokens": 1}
    }"#;
    let out = provider.completion_from_reply(&req, &url, 200, text, parse(text)).unwrap();
    assert_eq!(out.model_output, "billing");
    assert_eq!(out.source, "databricks-ai-gateway");
    assert_eq!(out.model_id, "system.ai.sonnet-4-5");
    assert_eq!(out.run_id.as_deref(), Some("chatcmpl-test"));
    assert_eq!(out.usage.as_ref().unwrap().input_tokens, Some(12));
    assert_eq!(out.usage.as_ref().unwrap().output_tokens, Some(1));
}

#[test]
fn model_provider_service_sets_header() {
    let provider = DatabricksAiGatewayProvider::new(
        "https://example.databricks.com",
        "tok",
        vec![ModelInfo {
            id: "gpt-4o-mini".into(),
            label: None,
            price_input_per_mtok: 150_000,
            price_output_per_mtok: 600_000,
            price_cache_read_per_mtok: None,
            price_cache_write_per_mtok: None,
            tier_hint: Some(ModelTier::Small),
        }],
        DatabricksGatewayPath::ModelProviderService,
        Some("main.default.openai_prod".into()),
    )
    .unwrap();
    let headers = provider.header_pairs();
    assert_eq!(headers.len(), 3);
    assert_eq!(headers[2].0, "databricks-model-provider-service");
    assert_eq!(headers[2].1, "main.default.openai_prod");
    assert!(provider.chat_completions_url().ends_with(OPENAI_CHAT_PATH));
    let req = request("gpt-4o-mini", "Say hello", None, None);
    let body = build_chat_request(&req);
    assert_eq!(body.messages.len(), 1);
    assert_eq!(body.messages[0].role, "user");
    assert_eq!(body.messages[0].content, "Say hello");
    assert_eq!(body.max_tokens, Some(1024));
    assert_eq!(body.temperature, None);
    let text = r#"{"choices":[{"message":{"role":"assistant","content":"hi"}}]}"#;
    let out = provider
        .completion_from_reply(&req, &provider.chat_completions_url(), 200, text, parse(text))
        .unwrap();
    assert_eq!(out.model_output, "hi");
    assert_eq!(out.run_id, None);
    assert_eq!(out.usage, None);
}

#[test]
fn list_models_returns_default_catalog() {
    let provider = provider(DatabricksGatewayPath::ModelService, None);
    let models = provider.list_models();
    assert!(models.iter().any(|m| m.id == "system.ai.sonnet-4-5"));
    assert_eq!(provider.name(), "databricks-ai-gateway");
}

#[test]
fn api_error_surfaces_status_and_body() {
    let provider = provider(DatabricksGatewayPath::ModelService, None);
    let req = request("system.ai.sonnet-4-5", "hi", None, None);
    let err = provider
        .completion_from_reply(&req, &provider.chat_completions_url(), 401, "unauthorized", parse("unauthorized"))
        .unwrap_err();
    match err {
        ModelProviderError::DatabricksApi { status, body } => {
            assert_eq!(status, 401);
            assert_eq!(body, "unauthorized");
        }
        other => panic!("unexpected {other:?}"),
    }
}

#[test]
fn reply_without_content_is_an_error() {
    let provider = provider(DatabricksGatewayPath::ModelService, None);
    let req = request("m", "hi", None, None);
    for text in [r#"{"choices":[]}"#, r#"{"choices":[{"message":{"role":"assistant","content":""}}]}"#, "{}"] {
        let err = provider.completion_from_reply(&req, "u", 200, text, parse(text)).unwrap_err();
        match err {
            ModelProviderError::Other(m) => assert_eq!(m, "Databricks response had no choices[0].message.content"),
            other => panic!("unexpected {other:?}"),
        }
    }
}

#[test]
fn malformed_reply_is_an_error() {
    let provider = provider(DatabricksGatewayPath::ModelService, None);
    let req = request("m", "hi", None, None);
    let text = r#"{"choices": 3}"#;
    match provider.completion_from_reply(&req, "u", 200, text, parse(text)).unwrap_err() {
        ModelProviderError::Other(m) => {
            assert_eq!(m, "invalid Databricks chat completions JSON (unexpected chat completions shape): {\"choices\": 3}")
        }
        other => panic!("unexpected {other:?}"),
    }
    match provider.completion_from_reply(&req, "u", 200, "not json", Err("bad".into())).unwrap_err() {
        ModelProviderError::Other(m) => assert_eq!(m, "invalid Databricks chat completions JSON (bad): not json"),
        other => panic!("unexpected {other:?}"),
    }
}

#[test]
fn provider_config_is_validated() {
    match DatabricksAiGatewayProvider::new("h", "t", vec![], DatabricksGatewayPath::ModelService, None).err() {
        Some(ModelProviderError::Other(m)) => {
            assert_eq!(m, "DatabricksAiGatewayProvider requires at least one model in list_models()")
        }
        other => panic!("unexpected {other:?}"),
    }
    match DatabricksAiGatewayProvider::new(
        "h",
        "t",
        default_databricks_catalog(),
        DatabricksGatewayPath::ModelProviderService,
        Some("   ".into()),
    )
    .err()
    {
        Some(ModelProviderError::Other(m)) => {
            assert_eq!(m, "ModelProviderService path requires DATABRICKS_MODEL_PROVIDER_SERVICE")
        }
        other => panic!("unexpected {other:?}"),
    }
    assert!(matches!(
        DatabricksAiGatewayProvider::from_env_values(Some(" ".into()), Some("t".into()), None, None).err(),
        Some(ModelProviderError::MissingDatabricksCredentials)
    ));
    let p = DatabricksAiGatewayProvider::from_env_values(Some("h.example".into()), Some("t".into()), Some("svc".into()), None)
        .unwrap();
    assert_eq!(p.path, DatabricksGatewayPath::ModelProviderService);
    assert_eq!(p.host, "https://h.example");
    assert_eq!(p.models.len(), 3);
}

#[test]
fn model_list_from_comma_separated_names() {
    let models = models_from_list(" a.b.c , ,d.e.f,").unwrap();
    assert_eq!(models.len(), 2);
    assert_eq!(models[0].id, "a.b.c");
    assert_eq!(models[1].id, "d.e.f");
    assert_eq!(models[1].label.as_deref(), Some("DATABRICKS_AI_GATEWAY_MODELS · d.e.f"));
    assert_eq!(models[0].price_input_per_mtok, 1_000_000);
    assert!(models_from_list(" , ").is_none());
}
