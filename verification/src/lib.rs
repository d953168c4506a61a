//! Smart LLM session router: allowlist enrichment with per-model cost and
//! cache economics, System One request packing, Choice answer mapping into a
//! structured routing decision, and the asynchronous Score feedback loop.
//!
//! Every routing decision names a model from the request allowlist, and the
//! hot path never waits for Score: it records a pending outcome and enqueues a
//! Score job that a worker drains later.

pub mod catalog;
pub mod error;
pub mod json;
pub mod keyed_map;
pub mod model_provider;
pub mod pack;
pub mod router;
pub mod score;
pub mod score_queue;
pub mod text;
pub mod types;
pub mod typesafe;

pub use catalog::{ModelCatalog, ModelCostProfile, ModelTier};
pub use error::{ModelProviderError, RouterError, TypesafeError};
pub use model_provider::cursor_agent::{CursorAgentSdkSource, CURSOR_API_KEY_ENV, CURSOR_HELPER_ENV};
pub use model_provider::databricks_ai_gateway::{
    chat_messages_from_request, default_databricks_catalog, normalize_host, ChatCompletionsRequest,
    ChatMessage, DatabricksAiGatewayProvider, DatabricksGatewayPath, DATABRICKS_HOST_ENV,
    DATABRICKS_MODELS_ENV, DATABRICKS_MODEL_PROVIDER_SERVICE_ENV, DATABRICKS_TOKEN_ENV,
};
pub use model_provider::stub::{StubModelProvider, StubModelSource};
pub use model_provider::{
    allowlist_from_provider, complete_request_from_session, format_session_prompt, CompleteRequest,
    CompleteResponse, ModelInfo, ModelProvider, ModelRuntime, UsageMeta,
};
pub use router::Router;
pub use score::{
    ClientMode, OutcomeScores, RouteOutcome, RubricScore, ScoreJob, ScoresStatus,
    INSTRUCTION_FOLLOW_QUESTION_ID, QUALITY_QUESTION_ID, TASK_FIT_QUESTION_ID,
};
pub use score_queue::{
    complete_turn_hot_path, complete_turn_with_model_provider, drain_score_queue, run_score_job,
    score_inline_lab_only, HotPathResult, InMemoryScoreQueue, OutcomeStore, ScoreQueue,
};
pub use types::{
    AlternativeConsidered, CacheHypothesis, ComplexityHint, DecisionReason, LatencyMode,
    LengthHint, MessageRole, PrefixReuse, RouterDecision, RouterRequest, SessionMessage, TaskClass,
    WhyTradeoff,
};
pub use typesafe::http::HttpTypesafeClient;
pub use typesafe::stub::StubTypesafeClient;
pub use typesafe::TypesafeClient;
