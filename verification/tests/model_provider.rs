use typesafe_llm_router::json::Json;
use typesafe_llm_router::model_provider::cursor_agent::DEFAULT_HELPER_REL;
use typesafe_llm_router::model_provider::stub::fixture_output;
use typesafe_llm_router::{
    allowlist_from_provider, complete_request_from_session, format_session_prompt, CompleteRequest,
    CursorAgentSdkSource, MessageRole, ModelProvider, ModelProviderError, ModelRuntime, RouterError,
    SessionMessage, StubModelProvider, TaskClass,
};

fn request(model_id: &str, prompt: &str) -> CompleteRequest {
    CompleteRequest {
        model_id: model_id.into(),
        prompt: prompt.into(),
        messages: None,
        cwd: None,
        runtime: ModelRuntime::Local,
        cloud_repos: None,
        model_params: None,
        timeout_ms: None,
    }
}

#[test]
fn stub_short_classify_returns_billing() {
    let src = StubModelProvider::with_task_class(Some(TaskClass::ShortClassify));
    let out = src.complete(&request("composer-2.5", "[system]\nlabel\n\n[user]\nticket")).unwrap();
    assert_eq!(out.model_output, "billing");
    assert_eq!(out.source, "stub");
    assert_eq!(out.model_id, "composer-2.5");
}

#[test]
fn list_models_uses_source_ids_with_fixture_prices() {
    let models = StubModelProvider::new().list_models().unwrap();
    assert!(models.iter().any(|m| m.id == "composer-2.5"));
    assert!(models.iter().any(|m| m.id == "grok-4.6"));
    let cheap = models.iter().find(|m| m.id == "composer-2.5").unwrap();
    // $1.00 per MTok, in micro-USD.
    assert_eq!(cheap.price_input_per_mtok, 1_000_000);
    assert!(cheap.price_cache_read_per_mtok.is_some());
}

#[test]
fn stub_completion_usage_run_id_and_meta() {
    let src = StubModelProvider::new();
    let out = src.complete(&request("grok-4.6", "please fix the Off-By-One in pagination")).unwrap();
    assert_eq!(out.model_output, "Fixed off-by-one: use `items.slice(start, start + pageSize)`.");
    assert_eq!(out.run_id.as_deref(), Some("stub-grok-4.6"));
    let usage = out.usage.unwrap();
    // 39 bytes of prompt, a quarter of them.
    assert_eq!(usage.input_tokens, Some(9));
    assert_eq!(usage.output_tokens, Some(8));
    let meta = out.raw_meta.unwrap();
    assert_eq!(meta.get("stub"), Some(&Json::Bool(true)));
    assert_eq!(meta.get("task_class"), Some(&Json::Null));
}

#[test]
fn fixture_output_by_task_and_prompt() {
    assert_eq!(fixture_output(None, "Label this SUPPORT ticket", "m"), "billing");
    assert_eq!(fixture_output(None, "hello", "m1"), "[stub:m1] ok");
    assert_eq!(
        fixture_output(Some(TaskClass::Creative), "x", "m"),
        "1) Pack light. Walk loud.\n2) Mud is a feature.\n3) Trails > trends."
    );
    assert!(fixture_output(Some(TaskClass::ToolUse), "x", "m").starts_with("CI fails in auth.test.ts"));
}

#[test]
fn session_prompt_keeps_roles() {
    let session = vec![
        SessionMessage { role: MessageRole::System, content: "label".into() },
        SessionMessage { role: MessageRole::User, content: "ticket".into() },
    ];
    assert_eq!(format_session_prompt(&session), "[system]\nlabel\n\n[user]\nticket");
    let req = complete_request_from_session("composer-2.5", &session, Some("/tmp".into()));
    assert_eq!(req.model_id, "composer-2.5");
    assert_eq!(req.prompt, "[system]\nlabel\n\n[user]\nticket");
    assert_eq!(req.messages.as_ref().unwrap().len(), 2);
    assert_eq!(req.cwd.as_deref(), Some("/tmp"));
    assert_eq!(req.runtime, ModelRuntime::Local);
    assert_eq!(format_session_prompt(&[]), "");
}

#[test]
fn allowlist_from_provider_lists_every_id() {
    let models = StubModelProvider::new().list_models().unwrap();
    let (allow, catalog) = allowlist_from_provider(&models, &[], None).unwrap();
    assert_eq!(allow.len(), 6);
    assert_eq!(allow[0], "composer-2.5");
    for id in &allow {
        assert!(catalog.get(id).is_some());
    }
}

#[test]
fn allowlist_from_provider_checks_requested_and_current() {
    let models = StubModelProvider::new().list_models().unwrap();
    let (allow, _) = allowlist_from_provider(&models, &["grok-4.6".into()], Some("grok-4.6")).unwrap();
    assert_eq!(allow, vec!["grok-4.6".to_string()]);
    match allowlist_from_provider(&models, &["grok-4.6".into(), "gpt-4o-mini".into()], None) {
        Err(RouterError::MissingCatalogEntry(id)) => assert_eq!(id, "gpt-4o-mini"),
        other => panic!("unexpected {other:?}"),
    }
    match allowlist_from_provider(&models, &["grok-4.6".into()], Some("composer-2.5")) {
        Err(RouterError::CurrentNotAllowlisted(c)) => assert_eq!(c, "composer-2.5"),
        other => panic!("unexpected {other:?}"),
    }
    assert!(matches!(allowlist_from_provider(&[], &[], None), Err(RouterError::EmptyAllowlist)));
}

#[test]
fn cursor_source_config_and_helper_reply() {
    let src = CursorAgentSdkSource::new("scripts/helper.mjs", Some(String::new()));
    assert!(matches!(src.usable_api_key(), Err(ModelProviderError::MissingCursorApiKey)));
    let env = CursorAgentSdkSource::from_env_values(None, Some("  ".into()), None);
    assert_eq!(env.helper_path, DEFAULT_HELPER_REL);
    assert_eq!(env.api_key, None);
    assert_eq!(env.node_bin, "node");
    assert_eq!(src.list_models().len(), 6);
    let req = request("composer-2.5", "hi");
    let payload = src.helper_request("k", &req);
    assert_eq!(payload.get("chosen_model").and_then(|v| v.as_text()), Some("composer-2.5"));
    assert_eq!(payload.get("runtime").and_then(|v| v.as_text()), Some("local"));
    assert_eq!(payload.get("cwd"), None);

    let reply = Json::Object(vec![
        ("model_output".into(), Json::Str("done".into())),
        ("input_tokens".into(), Json::Int(3)),
    ]);
    let out = src.completion_from_helper(&req, true, "exit status: 0", "", "{..}", Ok(reply)).unwrap();
    assert_eq!(out.model_output, "done");
    assert_eq!(out.source, "cursor-agent");
    assert_eq!(out.usage.unwrap().input_tokens, Some(3));
    assert_eq!(
        out.raw_meta.unwrap().get("helper").and_then(|v| v.as_text()),
        Some("scripts/helper.mjs")
    );
    let failed = Json::Object(vec![
        ("model_output".into(), Json::Str(String::new())),
        ("error".into(), Json::Str("quota".into())),
    ]);
    match src.completion_from_helper(&req, true, "", "", "", Ok(failed)) {
        Err(ModelProviderError::CursorHelper(m)) => assert_eq!(m, "quota"),
        other => panic!("unexpected {other:?}"),
    }
    match src.completion_from_helper(&req, false, "exit status: 2", "boom", "", Err("x".into())) {
        Err(ModelProviderError::CursorHelper(m)) => assert_eq!(m, "exit exit status: 2: boom"),
        other => panic!("unexpected {other:?}"),
    }
}
