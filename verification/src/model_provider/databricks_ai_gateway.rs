//! Databricks Unity AI Gateway: provider configuration, the OpenAI-style
//! chat-completions request body, and the reading of the gateway's reply.
//!
//! Model services are called at `{host}/ai-gateway/mlflow/v1/chat/completions`;
//! external model provider services at `{host}/ai-gateway/openai/v1/chat/completions`
//! with a `Databricks-Model-Provider-Service` header. Auth is a bearer token.
//! Sending the request is the caller's transport; everything decided before
//! and after it is here.

use vstd::prelude::*;

use super::{
    infos_match, mk_card, model_card, opt_string_view, CompleteRequest, CompleteResponse,
    ModelCard, ModelInfo, UsageMeta,
};
use crate::catalog::ModelTier;
use crate::error::ModelProviderError;
use crate::json::{
    json_opt_str, json_str, make_object, member, members_view, opt_text_ok, opt_text_ok_exec,
    opt_u32_exec, opt_u32_ok, opt_u32_value, push_member, text_of, Json, JsonView,
};
use crate::text::{
    is_blank, starts_with_seq, starts_with_text, trim_end_char, trim_end_char_seq, trim_seq,
    trim_text, views_of,
};
use crate::types::{role_name, MessageRole, SessionMessage};

verus! {

pub const DATABRICKS_HOST_ENV: &'static str = "DATABRICKS_HOST";

pub const DATABRICKS_TOKEN_ENV: &'static str = "DATABRICKS_TOKEN";

/// Optional model list: a JSON array of model cards, or comma-separated
/// model service names.
pub const DATABRICKS_MODELS_ENV: &'static str = "DATABRICKS_AI_GATEWAY_MODELS";

/// When set, the OpenAI path with this Unity Catalog provider-service name.
pub const DATABRICKS_MODEL_PROVIDER_SERVICE_ENV: &'static str = "DATABRICKS_MODEL_PROVIDER_SERVICE";

pub const MLFLOW_CHAT_PATH: &'static str = "/ai-gateway/mlflow/v1/chat/completions";

pub const OPENAI_CHAT_PATH: &'static str = "/ai-gateway/openai/v1/chat/completions";

/// Provider name reported on completions.
pub const DATABRICKS_PROVIDER_NAME: &'static str = "databricks-ai-gateway";

/// Which gateway surface to call.
#[derive(Debug, Clone, Copy, PartialEq, Eq, Structural)]
pub enum DatabricksGatewayPath {
    /// Databricks-hosted / unified model services (`/ai-gateway/mlflow/v1`).
    ModelService,
    /// External model provider services (`/ai-gateway/openai/v1` + header).
    ModelProviderService,
}

pub open spec fn chat_path_text(p: DatabricksGatewayPath) -> Seq<char> {
    match p {
        DatabricksGatewayPath::ModelService => MLFLOW_CHAT_PATH@,
        DatabricksGatewayPath::ModelProviderService => OPENAI_CHAT_PATH@,
    }
}

pub open spec fn path_label(p: DatabricksGatewayPath) -> Seq<char> {
    match p {
        DatabricksGatewayPath::ModelService => "mlflow"@,
        DatabricksGatewayPath::ModelProviderService => "openai"@,
    }
}

impl DatabricksGatewayPath {
    pub fn chat_path(self) -> (s: &'static str)
        ensures
            s@ == chat_path_text(self),
    {
        match self {
            DatabricksGatewayPath::ModelService => MLFLOW_CHAT_PATH,
            DatabricksGatewayPath::ModelProviderService => OPENAI_CHAT_PATH,
        }
    }

    pub fn label(self) -> (s: &'static str)
        ensures
            s@ == path_label(self),
    {
        match self {
            DatabricksGatewayPath::ModelService => "mlflow",
            DatabricksGatewayPath::ModelProviderService => "openai",
        }
    }
}

/// One OpenAI-style chat message.
#[derive(Debug, PartialEq, Eq)]
pub struct ChatMessage {
    pub role: String,
    pub content: String,
}

/// The chat-completions request body.
#[derive(Debug, PartialEq)]
pub struct ChatCompletionsRequest {
    pub model: String,
    pub messages: Vec<ChatMessage>,
    pub max_tokens: Option<u32>,
    /// The `temperature` number as given (an integer or a decimal).
    pub temperature: Option<Json>,
    pub stream: Option<bool>,
}

/// The gateway chat role of a session role (the chat API has no tool role).
pub open spec fn chat_role(r: MessageRole) -> Seq<char> {
    match r {
        MessageRole::System => "system"@,
        MessageRole::User => "user"@,
        MessageRole::Assistant => "assistant"@,
        MessageRole::Tool => "user"@,
    }
}

/// Every session message keeps its own role on the gateway, under the
/// session's wire name for it, except a tool message, which the chat API
/// cannot carry and which is sent as the user's. So distinct non-tool roles
/// stay distinct: an assistant's earlier reply is never sent as the user's.
pub proof fn lemma_chat_keeps_roles(r: MessageRole, s: MessageRole)
    ensures
        r != MessageRole::Tool ==> chat_role(r) == role_name(r),
        r == MessageRole::Tool ==> chat_role(r) == role_name(MessageRole::User),
        r != MessageRole::Tool && s != MessageRole::Tool && chat_role(r) == chat_role(s) ==> r == s,
{
    reveal_strlit("system");
    reveal_strlit("user");
    reveal_strlit("assistant");
    assert("system"@.len() == 6);
    assert("user"@.len() == 4);
    assert("assistant"@.len() == 9);
}

pub fn session_to_chat(m: &SessionMessage) -> (c: ChatMessage)
    ensures
        c.role@ == chat_role(m.role),
        c.content@ == m.content@,
{
    let role = match m.role {
        MessageRole::System => "system",
        MessageRole::User => "user",
        MessageRole::Assistant => "assistant",
        MessageRole::Tool => "user",
    };
    ChatMessage { role: role.to_owned(), content: m.content.clone() }
}

/// The chat messages of a request: its session messages when it has some,
/// else one user message with the flattened prompt.
pub open spec fn chat_messages_are(req: CompleteRequest, v: Seq<ChatMessage>) -> bool {
    if req.messages is Some && req.messages.unwrap()@.len() > 0 {
        let ms = req.messages.unwrap()@;
        &&& v.len() == ms.len()
        &&& forall|i: int| 0 <= i < v.len() ==> (#[trigger] v[i]).role@ == chat_role(ms[i].role) && v[i].content@ == ms[i].content@
    } else {
        &&& v.len() == 1
        &&& v[0].role@ == "user"@
        &&& v[0].content@ == req.prompt@
    }
}

/// Builds OpenAI-style chat messages from a complete request.
pub fn chat_messages_from_request(req: &CompleteRequest) -> (r: Vec<ChatMessage>)
    ensures
        chat_messages_are(*req, r@),
{
    if let Some(messages) = &req.messages {
        if messages.len() > 0 {
            let mut out: Vec<ChatMessage> = Vec::new();
            let n = messages.len();
            let mut i: usize = 0;
            while i < n
                invariant
                    n == messages@.len(),
                    i <= n,
                    out@.len() == i,
                    forall|j: int| 0 <= j < i ==> (#[trigger] out@[j]).role@ == chat_role(messages@[j].role)
                        && out@[j].content@ == messages@[j].content@,
                decreases n - i,
            {
                out.push(session_to_chat(&messages[i]));
                i = i + 1;
            }
            return out;
        }
    }
    vec![ChatMessage { role: "user".to_owned(), content: req.prompt.clone() }]
}

/// Member `key` of the request's model parameters.
pub open spec fn param_member(req: CompleteRequest, key: Seq<char>) -> Option<JsonView> {
    match req.model_params {
        Some(p) => member(p@, key),
        None => None,
    }
}

/// `max_tokens` when it is a `u64` (kept to its low 32 bits), else 1024.
pub open spec fn max_tokens_of(req: CompleteRequest) -> u32 {
    match param_member(req, "max_tokens"@) {
        Some(JsonView::Int(n)) => if 0 <= n <= u64::MAX { (n as u64) as u32 } else { 1024 },
        _ => 1024,
    }
}

/// `temperature` when it is a number.
pub open spec fn temperature_of(req: CompleteRequest) -> Option<JsonView> {
    match param_member(req, "temperature"@) {
        Some(JsonView::Int(n)) => Some(JsonView::Int(n)),
        Some(JsonView::Fixed(n)) => Some(JsonView::Fixed(n)),
        _ => None,
    }
}

/// The chat-completions body for a request: its model id and chat
/// messages, `max_tokens` (default 1024), `temperature` when given, no
/// streaming.
pub fn build_chat_request(req: &CompleteRequest) -> (b: ChatCompletionsRequest)
    ensures
        b.model@ == req.model_id@,
        chat_messages_are(*req, b.messages@),
        b.max_tokens == Some(max_tokens_of(*req)),
        match b.temperature {
            Some(t) => temperature_of(*req) == Some(t@),
            None => temperature_of(*req) is None,
        },
        b.stream == Some(false),
{
    let messages = chat_messages_from_request(req);
    let (max_tokens, temperature): (u32, Option<Json>) = match &req.model_params {
        Some(p) => {
            let mt: u32 = match p.get("max_tokens") {
                Some(v) => match v.as_u64() {
                    Some(n) => #[verifier::truncate] (n as u32),
                    None => 1024,
                },
                None => 1024,
            };
            let t: Option<Json> = match p.get("temperature") {
                Some(Json::Int(n)) => Some(Json::Int(*n)),
                Some(Json::Fixed(n)) => Some(Json::Fixed(*n)),
                _ => None,
            };
            (mt, t)
        },
        None => (1024, None),
    };
    ChatCompletionsRequest {
        model: req.model_id.clone(),
        messages,
        max_tokens: Some(max_tokens),
        temperature,
        stream: Some(false),
    }
}

/// The workspace URL: trimmed, without trailing slashes, `https://` added
/// when it has no scheme.
pub open spec fn normalized_host(host: Seq<char>) -> Seq<char> {
    let h = trim_end_char_seq(trim_seq(host), '/');
    if starts_with_seq(h, "http://"@) || starts_with_seq(h, "https://"@) {
        h
    } else {
        "https://"@ + h
    }
}

pub fn normalize_host(host: &str) -> (r: String)
    ensures
        r@ == normalized_host(host@),
{
    let trimmed = trim_text(host);
    let h = trim_end_char(trimmed.as_str(), '/');
    if starts_with_text(h.as_str(), "http://") || starts_with_text(h.as_str(), "https://") {
        h
    } else {
        let mut r = "https://".to_owned();
        r.append(h.as_str());
        r
    }
}

/// The lab catalog of Databricks foundation model services (illustrative
/// USD per MTok: gpt-oss-120b 0.10 in / 0.40 out, and so on).
pub open spec fn databricks_cards() -> Seq<ModelCard> {
    seq![
        mk_card("system.ai.databricks-gpt-oss-120b"@, "Databricks GPT OSS 120B (model service)"@, 100_000, 400_000, None, None, Some(ModelTier::Small)),
        mk_card("system.ai.sonnet-4-5"@, "Sonnet 4.5 via AI Gateway"@, 3_000_000, 15_000_000, Some(300_000), None, Some(ModelTier::Mid)),
        mk_card("system.ai.opus-4-6"@, "Opus 4.6 via AI Gateway"@, 15_000_000, 75_000_000, Some(1_500_000), None, Some(ModelTier::Frontier)),
    ]
}

/// Default lab catalog of Databricks model service names.
pub fn default_databricks_catalog() -> (v: Vec<ModelInfo>)
    ensures
        infos_match(v@, databricks_cards()),
{
    let v = vec![
        model_card("system.ai.databricks-gpt-oss-120b", "Databricks GPT OSS 120B (model service)", 100_000, 400_000, None, None, Some(ModelTier::Small)),
        model_card("system.ai.sonnet-4-5", "Sonnet 4.5 via AI Gateway", 3_000_000, 15_000_000, Some(300_000), None, Some(ModelTier::Mid)),
        model_card("system.ai.opus-4-6", "Opus 4.6 via AI Gateway", 15_000_000, 75_000_000, Some(1_500_000), None, Some(ModelTier::Frontier)),
    ];
    assert(infos_match(v@, databricks_cards()));
    v
}

/// The pieces of `s` between occurrences of `c`.
pub open spec fn split_seq(s: Seq<char>, c: char) -> Seq<Seq<char>>
    decreases s.len(),
{
    if s.len() == 0 {
        seq![Seq::<char>::empty()]
    } else {
        let p = split_seq(s.drop_last(), c);
        if s.last() == c {
            p.push(Seq::empty())
        } else {
            p.update(p.len() - 1, p.last().push(s.last()))
        }
    }
}

proof fn lemma_split_nonempty(s: Seq<char>, c: char)
    ensures
        split_seq(s, c).len() >= 1,
    decreases s.len(),
{
    if s.len() > 0 {
        lemma_split_nonempty(s.drop_last(), c);
    }
}

/// The model service names of a comma-separated list: trimmed, empty ones
/// dropped.
pub open spec fn listed_ids(raw: Seq<char>) -> Seq<Seq<char>> {
    split_seq(raw, ',').map_values(|p: Seq<char>| trim_seq(p)).filter(|p: Seq<char>| p.len() > 0)
}

/// The card for a listed model service name: fixed placeholder prices
/// (1.00 in / 3.00 out per MTok) and no tier.
pub open spec fn listed_card(id: Seq<char>) -> ModelCard {
    ModelCard {
        id,
        label: Some("DATABRICKS_AI_GATEWAY_MODELS · "@ + id),
        input: 1_000_000,
        output: 3_000_000,
        cache_read: None,
        cache_write: None,
        tier: None,
    }
}

fn split_text(s: &str, c: char) -> (r: Vec<String>)
    ensures
        views_of(r@) == split_seq(s@, c),
{
    let n = s.unicode_len();
    let mut done: Vec<String> = Vec::new();
    let mut cur = String::new();
    let mut i: usize = 0;
    while i < n
        invariant
            n == s@.len(),
            i <= n,
            views_of(done@).push(cur@) == split_seq(s@.subrange(0, i as int), c),
        decreases n - i,
    {
        let ch = s.get_char(i);
        let ghost pre = s@.subrange(0, i as int);
        let ghost next = s@.subrange(0, i + 1);
        proof {
            assert(next.drop_last() =~= pre);
            assert(next.last() == ch);
            lemma_split_nonempty(pre, c);
        }
        if ch == c {
            let piece = cur;
            done.push(piece);
            cur = String::new();
            assert(views_of(done@).push(cur@) =~= split_seq(next, c));
        } else {
            let ghost old_cur = cur@;
            let ghost old_done = views_of(done@);
            crate::text::push_char(&mut cur, ch);
            proof {
                let p = split_seq(pre, c);
                assert(p =~= old_done.push(old_cur));
                assert(views_of(done@).push(cur@) =~= p.update(p.len() - 1, p.last().push(ch)));
            }
        }
        i = i + 1;
    }
    assert(s@.subrange(0, n as int) =~= s@);
    done.push(cur);
    assert(views_of(done@) =~= split_seq(s@, c));
    done
}

/// Model cards for a comma-separated list of model service names; `None`
/// when the list names none.
pub fn models_from_list(raw: &str) -> (r: Option<Vec<ModelInfo>>)
    ensures
        match r {
            Some(v) => listed_ids(raw@).len() > 0 && infos_match(v@, listed_ids(raw@).map_values(|id: Seq<char>| listed_card(id))),
            None => listed_ids(raw@).len() == 0,
        },
{
    let pieces = split_text(raw, ',');
    let ghost trimmed = split_seq(raw@, ',').map_values(|p: Seq<char>| trim_seq(p));
    let ghost pred = |p: Seq<char>| p.len() > 0;
    let mut out: Vec<ModelInfo> = Vec::new();
    let n = pieces.len();
    let mut i: usize = 0;
    while i < n
        invariant
            n == pieces@.len(),
            views_of(pieces@) == split_seq(raw@, ','),
            trimmed == split_seq(raw@, ',').map_values(|p: Seq<char>| trim_seq(p)),
            pred == (|p: Seq<char>| p.len() > 0),
            i <= n,
            infos_match(out@, trimmed.take(i as int).filter(pred).map_values(|id: Seq<char>| listed_card(id))),
        decreases n - i,
    {
        let id = trim_text(pieces[i].as_str());
        proof {
            assert(id@ == trimmed[i as int]);
            assert(trimmed.take(i as int + 1).drop_last() =~= trimmed.take(i as int));
            reveal(Seq::filter);
        }
        if id.unicode_len() > 0 {
            let mut label = "DATABRICKS_AI_GATEWAY_MODELS · ".to_owned();
            label.append(id.as_str());
            out.push(ModelInfo {
                id,
                label: Some(label),
                price_input_per_mtok: 1_000_000,
                price_output_per_mtok: 3_000_000,
                price_cache_read_per_mtok: None,
                price_cache_write_per_mtok: None,
                tier_hint: None,
            });
            proof {
                let f = trimmed.take(i as int + 1).filter(pred);
                assert(f == trimmed.take(i as int).filter(pred).push(trimmed[i as int]));
                assert(f.map_values(|id: Seq<char>| listed_card(id)) =~= trimmed.take(i as int).filter(pred).map_values(
                    |id: Seq<char>| listed_card(id),
                ).push(listed_card(trimmed[i as int])));
            }
        } else {
            proof {
                assert(trimmed.take(i as int + 1).filter(pred) == trimmed.take(i as int).filter(pred));
            }
        }
        i = i + 1;
    }
    assert(trimmed.take(n as int) =~= trimmed);
    if out.len() == 0 {
        None
    } else {
        Some(out)
    }
}

/// Databricks AI Gateway provider configuration.
pub struct DatabricksAiGatewayProvider {
    /// Normalized workspace URL.
    pub host: String,
    pub token: String,
    pub path: DatabricksGatewayPath,
    /// Unity Catalog provider-service name (for the provider-service path).
    pub model_provider_service: Option<String>,
    pub models: Vec<ModelInfo>,
}

/// The service name is missing or blank.
pub open spec fn service_blank(s: Option<String>) -> bool {
    match s {
        Some(t) => trim_seq(t@).len() == 0,
        None => true,
    }
}

pub open spec fn no_models_message() -> Seq<char> {
    "DatabricksAiGatewayProvider requires at least one model in list_models()"@
}

pub open spec fn no_service_message() -> Seq<char> {
    "ModelProviderService path requires DATABRICKS_MODEL_PROVIDER_SERVICE"@
}

/// `p` is the provider configured from these values.
pub open spec fn provider_is(
    p: DatabricksAiGatewayProvider,
    host: Seq<char>,
    token: Seq<char>,
    models: Seq<ModelInfo>,
    path: DatabricksGatewayPath,
    service: Option<String>,
) -> bool {
    &&& p.host@ == normalized_host(host)
    &&& p.token@ == token
    &&& p.path == path
    &&& p.model_provider_service == service
    &&& p.models@ == models
}

fn copy_infos(v: &Vec<ModelInfo>) -> (r: Vec<ModelInfo>)
    ensures
        r@ == v@,
{
    let mut out: Vec<ModelInfo> = Vec::new();
    let n = v.len();
    let mut i: usize = 0;
    while i < n
        invariant
            n == v@.len(),
            i <= n,
            out@ == v@.take(i as int),
        decreases n - i,
    {
        out.push(v[i].clone());
        assert(v@.take(i as int + 1) =~= v@.take(i as int).push(v@[i as int]));
        i = i + 1;
    }
    assert(v@.take(n as int) =~= v@);
    out
}

/// Why the gateway answered the way it did, as read from its reply.
pub open spec fn reply_problem() -> Seq<char> {
    "unexpected chat completions shape"@
}

/// A choice: an object whose `message`, when present and not `null`, is a
/// chat message with a string role and content.
pub open spec fn choice_ok(c: JsonView) -> bool {
    &&& c is Object
    &&& match member(c, "message"@) {
        None => true,
        Some(JsonView::Null) => true,
        Some(m) => m is Object && text_of(member(m, "role"@)) is Some && text_of(member(m, "content"@)) is Some,
    }
}

pub open spec fn choices_ok(v: JsonView) -> bool {
    let c = member(v, "choices"@);
    c is None || (c->0 is Array && all_choices_ok(c->0->Array_0))
}

pub open spec fn all_choices_ok(cs: Seq<JsonView>) -> bool {
    forall|i: int| 0 <= i < cs.len() ==> choice_ok(#[trigger] cs[i])
}

pub open spec fn usage_ok(v: JsonView) -> bool {
    match member(v, "usage"@) {
        None => true,
        Some(JsonView::Null) => true,
        Some(u) => u is Object && opt_u32_ok(member(u, "prompt_tokens"@)) && opt_u32_ok(member(u, "completion_tokens"@)),
    }
}

/// The reply is a chat-completions object: optional string `id`, optional
/// array of choices, optional usage with `u32` token counts.
pub open spec fn reply_ok(v: JsonView) -> bool {
    &&& v is Object
    &&& opt_text_ok(member(v, "id"@))
    &&& choices_ok(v)
    &&& usage_ok(v)
}

/// The content of the first choice's message, when there is one.
pub open spec fn first_content(v: JsonView) -> Option<Seq<char>> {
    match member(v, "choices"@) {
        Some(JsonView::Array(cs)) => if cs.len() > 0 {
            match member(cs[0], "message"@) {
                Some(m) => text_of(member(m, "content"@)),
                None => None,
            }
        } else {
            None
        },
        _ => None,
    }
}

/// The token usage of the reply, when present.
pub open spec fn reply_usage(v: JsonView) -> Option<UsageMeta> {
    match member(v, "usage"@) {
        Some(JsonView::Object(m)) => Some(
            UsageMeta {
                input_tokens: opt_u32_value(member(JsonView::Object(m), "prompt_tokens"@)),
                output_tokens: opt_u32_value(member(JsonView::Object(m), "completion_tokens"@)),
            },
        ),
        _ => None,
    }
}

/// The provider's metadata on a completion.
pub open spec fn gateway_meta(p: DatabricksAiGatewayProvider, url: Seq<char>, id: Option<Seq<char>>) -> JsonView {
    JsonView::Object(
        seq![
            ("gateway"@, JsonView::Str(DATABRICKS_PROVIDER_NAME@)),
            ("path"@, JsonView::Str(path_label(p.path))),
            ("url"@, JsonView::Str(url)),
            ("response_id"@, crate::json::jopt_str(id)),
            ("model_provider_service"@, crate::json::jopt_str(opt_string_view(p.model_provider_service))),
        ],
    )
}

/// The message of a reply that could not be read.
pub open spec fn invalid_reply_message(reason: Seq<char>, text: Seq<char>) -> Seq<char> {
    "invalid Databricks chat completions JSON ("@ + reason + "): "@ + text
}

pub open spec fn no_content_message() -> Seq<char> {
    "Databricks response had no choices[0].message.content"@
}

/// What the provider makes of the gateway's reply to `req`.
pub open spec fn reply_outcome(
    p: DatabricksAiGatewayProvider,
    req: CompleteRequest,
    url: Seq<char>,
    status: u16,
    text: Seq<char>,
    parsed: Result<JsonView, Seq<char>>,
    r: Result<CompleteResponse, ModelProviderError>,
) -> bool {
    if !(200 <= status < 300) {
        r matches Err(ModelProviderError::DatabricksApi { status: s, body: b }) && s == status && b@ == text
    } else {
        match parsed {
            Err(e) => r matches Err(ModelProviderError::Other(m)) && m@ == invalid_reply_message(e, text),
            Ok(v) => if !reply_ok(v) {
                r matches Err(ModelProviderError::Other(m)) && m@ == invalid_reply_message(reply_problem(), text)
            } else {
                match first_content(v) {
                    Some(c) => if c.len() > 0 {
                        r matches Ok(resp) && {
                            let id = text_of(member(v, "id"@));
                            &&& resp.model_output@ == c
                            &&& resp.source@ == DATABRICKS_PROVIDER_NAME@
                            &&& resp.model_id@ == req.model_id@
                            &&& opt_string_view(resp.run_id) == id
                            &&& resp.usage == reply_usage(v)
                            &&& resp.raw_meta is Some
                            &&& resp.raw_meta.unwrap()@ == gateway_meta(p, url, id)
                        }
                    } else {
                        r matches Err(ModelProviderError::Other(m)) && m@ == no_content_message()
                    },
                    None => r matches Err(ModelProviderError::Other(m)) && m@ == no_content_message(),
                }
            },
        }
    }
}

fn choice_ok_exec(c: &Json) -> (b: bool)
    ensures
        b == choice_ok(c@),
{
    match c {
        Json::Object(_) => {},
        _ => {
            return false;
        },
    }
    match c.get("message") {
        None => true,
        Some(Json::Null) => true,
        Some(m) => match m {
            Json::Object(_) => crate::json::member_text(m, "role").is_some() && crate::json::member_text(m, "content").is_some(),
            _ => false,
        },
    }
}

fn choices_ok_exec(v: &Json) -> (b: bool)
    ensures
        b == choices_ok(v@),
{
    match v.get("choices") {
        None => true,
        Some(cs) => match cs.as_array() {
            Some(items) => {
                let n = items.len();
                let mut i: usize = 0;
                assert(member(v@, "choices"@) == Some(JsonView::Array(crate::json::elems_view(items@))));
                while i < n
                    invariant
                        n == items@.len(),
                        i <= n,
                        member(v@, "choices"@) == Some(JsonView::Array(crate::json::elems_view(items@))),
                        forall|j: int| 0 <= j < i ==> choice_ok(#[trigger] items@[j]@),
                    decreases n - i,
                {
                    if !choice_ok_exec(&items[i]) {
                        proof {
                            assert(crate::json::elems_view(items@)[i as int] == items@[i as int]@);

                        }
                        return false;
                    }
                    i = i + 1;
                }
                proof {
                    let s = crate::json::elems_view(items@);
                    assert forall|j: int| 0 <= j < s.len() implies choice_ok(#[trigger] s[j]) by {
                        assert(s[j] == items@[j]@);
                    }
                }
                true
            },
            None => false,
        },
    }
}

fn usage_exec(v: &Json) -> (r: (bool, Option<UsageMeta>))
    ensures
        r.0 == usage_ok(v@),
        r.0 ==> r.1 == reply_usage(v@),
{
    match v.get("usage") {
        None => (true, None),
        Some(Json::Null) => (true, None),
        Some(u) => match u {
            Json::Object(_) => {
                let (ok_in, input) = opt_u32_exec(u.get("prompt_tokens"));
                let (ok_out, output) = opt_u32_exec(u.get("completion_tokens"));
                (ok_in && ok_out, Some(UsageMeta { input_tokens: input, output_tokens: output }))
            },
            _ => (false, None),
        },
    }
}

fn first_content_exec(v: &Json) -> (r: Option<&str>)
    ensures
        crate::catalog::opt_str_view(r) == first_content(v@),
{
    match v.get("choices") {
        Some(cs) => match cs.as_array() {
            Some(items) => if items.len() > 0 {
                proof {
                    assert(crate::json::elems_view(items@)[0] == items@[0]@);
                }
                match items[0].get("message") {
                    Some(m) => crate::json::member_text(m, "content"),
                    None => None,
                }
            } else {
                None
            },
            None => None,
        },
        None => None,
    }
}

impl DatabricksAiGatewayProvider {
    /// Validates and normalizes a provider configuration.
    pub fn new(
        host: &str,
        token: &str,
        models: Vec<ModelInfo>,
        path: DatabricksGatewayPath,
        model_provider_service: Option<String>,
    ) -> (r: Result<Self, ModelProviderError>)
        ensures
            models@.len() == 0 ==> (r matches Err(ModelProviderError::Other(m)) && m@ == no_models_message()),
            models@.len() > 0 && path == DatabricksGatewayPath::ModelProviderService && service_blank(model_provider_service)
                ==> (r matches Err(ModelProviderError::Other(m)) && m@ == no_service_message()),
            models@.len() > 0 && !(path == DatabricksGatewayPath::ModelProviderService && service_blank(model_provider_service))
                ==> (r matches Ok(p) && provider_is(p, host@, token@, models@, path, model_provider_service)),
    {
        if models.len() == 0 {
            return Err(ModelProviderError::Other(
                "DatabricksAiGatewayProvider requires at least one model in list_models()".to_owned(),
            ));
        }
        let blank = match &model_provider_service {
            Some(s) => is_blank(s.as_str()),
            None => true,
        };
        if path == DatabricksGatewayPath::ModelProviderService && blank {
            return Err(ModelProviderError::Other(
                "ModelProviderService path requires DATABRICKS_MODEL_PROVIDER_SERVICE".to_owned(),
            ));
        }
        Ok(DatabricksAiGatewayProvider {
            host: normalize_host(host),
            token: token.to_owned(),
            path,
            model_provider_service,
            models,
        })
    }

    pub fn name(&self) -> (s: &'static str)
        ensures
            s@ == DATABRICKS_PROVIDER_NAME@,
    {
        DATABRICKS_PROVIDER_NAME
    }

    /// The configured model cards (the Choice allowlist and prices).
    pub fn list_models(&self) -> (r: Vec<ModelInfo>)
        ensures
            r@ == self.models@,
    {
        copy_infos(&self.models)
    }

    /// Chat completions URL for the configured gateway path.
    pub fn chat_completions_url(&self) -> (r: String)
        ensures
            r@ == self.host@ + chat_path_text(self.path),
    {
        let mut url = self.host.clone();
        url.append(self.path.chat_path());
        url
    }

    /// The request headers as (lowercase name, value) pairs: bearer auth,
    /// JSON content type, and the provider-service header when configured.
    pub fn header_pairs(&self) -> (r: Vec<(String, String)>)
        ensures
            r@.len() == (if self.model_provider_service is Some { 3int } else { 2int }),
            r@[0].0@ == "authorization"@,
            r@[0].1@ == "Bearer "@ + self.token@,
            r@[1].0@ == "content-type"@,
            r@[1].1@ == "application/json"@,
            self.model_provider_service is Some ==> r@[2].0@ == "databricks-model-provider-service"@
                && r@[2].1@ == self.model_provider_service.unwrap()@,
    {
        let mut bearer = "Bearer ".to_owned();
        bearer.append(self.token.as_str());
        let mut r: Vec<(String, String)> = Vec::new();
        r.push(("authorization".to_owned(), bearer));
        r.push(("content-type".to_owned(), "application/json".to_owned()));
        if let Some(svc) = &self.model_provider_service {
            r.push(("databricks-model-provider-service".to_owned(), svc.clone()));
        }
        r
    }

    /// Reads the gateway's reply to `req`, sent to `url`: a non-2xx status
    /// is an API error carrying the body; otherwise the body must be a
    /// chat-completions object whose first choice has non-empty content.
    ///
    /// `parsed` is the body parsed as JSON, or the parser's complaint.
    pub fn completion_from_reply(
        &self,
        req: &CompleteRequest,
        url: &str,
        status: u16,
        text: &str,
        parsed: Result<Json, String>,
    ) -> (r: Result<CompleteResponse, ModelProviderError>)
        ensures
            reply_outcome(*self, *req, url@, status, text@, match parsed {
                Ok(j) => Ok(j@),
                Err(e) => Err(e@),
            }, r),
    {
        if !(200 <= status && status < 300) {
            return Err(ModelProviderError::DatabricksApi { status, body: text.to_owned() });
        }
        let v = match parsed {
            Ok(j) => j,
            Err(e) => {
                let mut m = "invalid Databricks chat completions JSON (".to_owned();
                m.append(e.as_str());
                m.append("): ");
                m.append(text);
                return Err(ModelProviderError::Other(m));
            },
        };
        let is_object = match &v {
            Json::Object(_) => true,
            _ => false,
        };
        let (usage_fine, usage) = usage_exec(&v);
        if !(is_object && opt_text_ok_exec(v.get("id")) && choices_ok_exec(&v) && usage_fine) {
            let mut m = "invalid Databricks chat completions JSON (".to_owned();
            m.append("unexpected chat completions shape");
            m.append("): ");
            m.append(text);
            return Err(ModelProviderError::Other(m));
        }
        let content = match first_content_exec(&v) {
            Some(c) => c,
            None => {
                return Err(ModelProviderError::Other("Databricks response had no choices[0].message.content".to_owned()));
            },
        };
        if content.unicode_len() == 0 {
            return Err(ModelProviderError::Other("Databricks response had no choices[0].message.content".to_owned()));
        }
        let model_output = content.to_owned();
        let id: Option<String> = match crate::json::member_text(&v, "id") {
            Some(t) => Some(t.to_owned()),
            None => None,
        };
        let id_json = json_opt_str(&id);
        let mut members: Vec<(String, Json)> = Vec::new();
        assert(members_view(members@) =~= Seq::empty());
        push_member(&mut members, "gateway", json_str(DATABRICKS_PROVIDER_NAME));
        push_member(&mut members, "path", json_str(self.path.label()));
        push_member(&mut members, "url", json_str(url));
        push_member(&mut members, "response_id", id_json);
        push_member(&mut members, "model_provider_service", json_opt_str(&self.model_provider_service));
        proof {
            match gateway_meta(*self, url@, opt_string_view(id)) {
                JsonView::Object(expect) => assert(members_view(members@) =~= expect),
                _ => {},
            }
        }
        let meta = make_object(members);
        Ok(CompleteResponse {
            model_output,
            source: DATABRICKS_PROVIDER_NAME.to_owned(),
            model_id: req.model_id.clone(),
            run_id: id,
            usage,
            raw_meta: Some(meta),
        })
    }

    /// The provider configured from the environment's values (host, token,
    /// provider-service name, model list); missing or blank credentials are
    /// an error, a blank service name counts as none, and without a model
    /// list the default catalog is used.
    pub fn from_env_values(
        host: Option<String>,
        token: Option<String>,
        model_provider_service: Option<String>,
        models: Option<Vec<ModelInfo>>,
    ) -> (r: Result<Self, ModelProviderError>)
        ensures
            (host is None || token is None || trim_seq(host.unwrap()@).len() == 0 || trim_seq(token.unwrap()@).len() == 0)
                ==> r matches Err(ModelProviderError::MissingDatabricksCredentials),
            !(host is None || token is None || trim_seq(host.unwrap()@).len() == 0 || trim_seq(token.unwrap()@).len() == 0)
                ==> {
                let svc = if service_blank(model_provider_service) { None } else { model_provider_service };
                let path = if svc is Some {
                    DatabricksGatewayPath::ModelProviderService
                } else {
                    DatabricksGatewayPath::ModelService
                };
                match models {
                    Some(ms) => if ms@.len() == 0 {
                        r matches Err(ModelProviderError::Other(m)) && m@ == no_models_message()
                    } else {
                        r matches Ok(p) && provider_is(p, host.unwrap()@, token.unwrap()@, ms@, path, svc)
                    },
                    None => r matches Ok(p) && provider_is(p, host.unwrap()@, token.unwrap()@, p.models@, path, svc)
                        && infos_match(p.models@, databricks_cards()),
                }
            },
    {
        let host = match host {
            Some(h) => h,
            None => {
                return Err(ModelProviderError::MissingDatabricksCredentials);
            },
        };
        let token = match token {
            Some(t) => t,
            None => {
                return Err(ModelProviderError::MissingDatabricksCredentials);
            },
        };
        if is_blank(host.as_str()) || is_blank(token.as_str()) {
            return Err(ModelProviderError::MissingDatabricksCredentials);
        }
        let service: Option<String> = match model_provider_service {
            Some(s) => if is_blank(s.as_str()) {
                None
            } else {
                Some(s)
            },
            None => None,
        };
        let path = if service.is_some() {
            DatabricksGatewayPath::ModelProviderService
        } else {
            DatabricksGatewayPath::ModelService
        };
        let models = match models {
            Some(ms) => ms,
            None => default_databricks_catalog(),
        };
        Self::new(host.as_str(), token.as_str(), models, path, service)
    }
}

} // verus!
