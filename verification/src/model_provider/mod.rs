//! Pluggable model execution after Choice routing.
//!
//! Pipeline: `list_models` → Choice → `complete(chosen_model)` → return the
//! decision and the output → asynchronous Score. The allowlist and token
//! prices come from `list_models()`, and the routed `chosen_model` is the id
//! handed to `complete`.

pub mod cursor_agent;
pub mod databricks_ai_gateway;
pub mod stub;

use vstd::prelude::*;

use crate::catalog::{catalog_of_infos, string_views, ModelCatalog, ModelCostProfile, ModelTier};
use crate::error::{ModelProviderError, RouterError};
use crate::json::Json;
use crate::text::{contains_text, join, join_strings, views_of};
use crate::types::{role_name, SessionMessage};

verus! {

/// Provider model card: id, token prices and an optional tier hint.
///
/// Prices are micro-USD per million tokens (`500_000` is $0.50 per MTok).
#[derive(Debug, PartialEq, Eq)]
pub struct ModelInfo {
    pub id: String,
    pub label: Option<String>,
    pub price_input_per_mtok: u64,
    pub price_output_per_mtok: u64,
    pub price_cache_read_per_mtok: Option<u64>,
    pub price_cache_write_per_mtok: Option<u64>,
    pub tier_hint: Option<ModelTier>,
}

impl Clone for ModelInfo {
    fn clone(&self) -> (r: Self)
        ensures
            r == *self,
    {
        ModelInfo {
            id: self.id.clone(),
            label: self.label.clone(),
            price_input_per_mtok: self.price_input_per_mtok,
            price_output_per_mtok: self.price_output_per_mtok,
            price_cache_read_per_mtok: self.price_cache_read_per_mtok,
            price_cache_write_per_mtok: self.price_cache_write_per_mtok,
            tier_hint: self.tier_hint,
        }
    }
}

/// The catalog profile a provider model card stands for: id and tier from
/// the card, its prices, its label as the notes, tool capable, cache
/// eligible exactly when it has a cache-read price, and no placeholder bands.
pub open spec fn profile_of_info(m: ModelInfo) -> ModelCostProfile {
    ModelCostProfile {
        id: Some(m.id),
        tier: m.tier_hint,
        tool_capable: true,
        input_usd_per_mtok: m.price_input_per_mtok,
        output_usd_per_mtok: m.price_output_per_mtok,
        cost_band_in: None,
        cost_band_out: None,
        cache_eligible: m.price_cache_read_per_mtok is Some,
        cache_read_usd_per_mtok: m.price_cache_read_per_mtok,
        cache_write_usd_per_mtok: m.price_cache_write_per_mtok,
        notes: m.label,
    }
}

impl ModelInfo {
    pub fn to_cost_profile(&self) -> (p: ModelCostProfile)
        ensures
            p == profile_of_info(*self),
    {
        ModelCostProfile {
            id: Some(self.id.clone()),
            tier: self.tier_hint,
            tool_capable: true,
            input_usd_per_mtok: self.price_input_per_mtok,
            output_usd_per_mtok: self.price_output_per_mtok,
            cost_band_in: None,
            cost_band_out: None,
            cache_eligible: self.price_cache_read_per_mtok.is_some(),
            cache_read_usd_per_mtok: self.price_cache_read_per_mtok,
            cache_write_usd_per_mtok: self.price_cache_write_per_mtok,
            notes: self.label.clone(),
        }
    }
}

/// The mathematical content of a provider model card.
pub struct ModelCard {
    pub id: Seq<char>,
    pub label: Option<Seq<char>>,
    pub input: nat,
    pub output: nat,
    pub cache_read: Option<nat>,
    pub cache_write: Option<nat>,
    pub tier: Option<ModelTier>,
}

pub open spec fn opt_u64_nat(o: Option<u64>) -> Option<nat> {
    match o {
        Some(n) => Some(n as nat),
        None => None,
    }
}

pub open spec fn opt_string_view(o: Option<String>) -> Option<Seq<char>> {
    match o {
        Some(s) => Some(s@),
        None => None,
    }
}

/// `m` carries exactly the content of `c`.
pub open spec fn info_matches(m: ModelInfo, c: ModelCard) -> bool {
    &&& m.id@ == c.id
    &&& opt_string_view(m.label) == c.label
    &&& m.price_input_per_mtok as nat == c.input
    &&& m.price_output_per_mtok as nat == c.output
    &&& opt_u64_nat(m.price_cache_read_per_mtok) == c.cache_read
    &&& opt_u64_nat(m.price_cache_write_per_mtok) == c.cache_write
    &&& m.tier_hint == c.tier
}

pub open spec fn infos_match(ms: Seq<ModelInfo>, cs: Seq<ModelCard>) -> bool {
    &&& ms.len() == cs.len()
    &&& forall|i: int| 0 <= i < ms.len() ==> info_matches(#[trigger] ms[i], cs[i])
}

pub open spec fn mk_card(
    id: Seq<char>,
    label: Seq<char>,
    input: nat,
    output: nat,
    cache_read: Option<nat>,
    cache_write: Option<nat>,
    tier: Option<ModelTier>,
) -> ModelCard {
    ModelCard { id, label: Some(label), input, output, cache_read, cache_write, tier }
}

/// Builds a labelled model card.
pub fn model_card(
    id: &str,
    label: &str,
    input: u64,
    output: u64,
    cache_read: Option<u64>,
    cache_write: Option<u64>,
    tier: Option<ModelTier>,
) -> (m: ModelInfo)
    ensures
        info_matches(
            m,
            mk_card(id@, label@, input as nat, output as nat, opt_u64_nat(cache_read), opt_u64_nat(cache_write), tier),
        ),
{
    ModelInfo {
        id: id.to_owned(),
        label: Some(label.to_owned()),
        price_input_per_mtok: input,
        price_output_per_mtok: output,
        price_cache_read_per_mtok: cache_read,
        price_cache_write_per_mtok: cache_write,
        tier_hint: tier,
    }
}

/// Model cards with the Cursor price snapshot (USD per MTok: composer-2.5
/// 0.50 in / 2.50 out / 0.20 cache read, and so on).
pub open spec fn cursor_cards() -> Seq<ModelCard> {
    seq![
        mk_card("composer-2.5"@, "Composer 2.5"@, 500_000, 2_500_000, Some(200_000), None, Some(ModelTier::Small)),
        mk_card("composer-2.5-fast"@, "Composer 2.5 Fast"@, 3_000_000, 15_000_000, Some(500_000), None, Some(ModelTier::Small)),
        mk_card("grok-4.6"@, "Grok 4.6"@, 2_000_000, 6_000_000, Some(500_000), None, Some(ModelTier::Mid)),
        mk_card("grok-4.6-fast"@, "Grok 4.6 Fast"@, 4_000_000, 12_000_000, Some(1_000_000), None, Some(ModelTier::Mid)),
        mk_card("grok-4.5"@, "Grok 4.5"@, 2_000_000, 6_000_000, Some(500_000), None, Some(ModelTier::Frontier)),
        mk_card("grok-4.5-fast"@, "Grok 4.5 Fast"@, 4_000_000, 18_000_000, Some(1_000_000), None, Some(ModelTier::Frontier)),
    ]
}

/// The Cursor price snapshot as model cards.
pub fn cursor_model_cards() -> (v: Vec<ModelInfo>)
    ensures
        infos_match(v@, cursor_cards()),
{
    let v = vec![
        model_card("composer-2.5", "Composer 2.5", 500_000, 2_500_000, Some(200_000), None, Some(ModelTier::Small)),
        model_card("composer-2.5-fast", "Composer 2.5 Fast", 3_000_000, 15_000_000, Some(500_000), None, Some(ModelTier::Small)),
        model_card("grok-4.6", "Grok 4.6", 2_000_000, 6_000_000, Some(500_000), None, Some(ModelTier::Mid)),
        model_card("grok-4.6-fast", "Grok 4.6 Fast", 4_000_000, 12_000_000, Some(1_000_000), None, Some(ModelTier::Mid)),
        model_card("grok-4.5", "Grok 4.5", 2_000_000, 6_000_000, Some(500_000), None, Some(ModelTier::Frontier)),
        model_card("grok-4.5-fast", "Grok 4.5 Fast", 4_000_000, 18_000_000, Some(1_000_000), None, Some(ModelTier::Frontier)),
    ];
    assert(infos_match(v@, cursor_cards()));
    v
}

/// Where the chosen model runs: locally or in the cloud.
#[derive(Debug, Clone, Copy, PartialEq, Eq, Structural)]
pub enum ModelRuntime {
    Local,
    Cloud,
}

pub open spec fn runtime_name(r: ModelRuntime) -> Seq<char> {
    match r {
        ModelRuntime::Local => "local"@,
        ModelRuntime::Cloud => "cloud"@,
    }
}

impl ModelRuntime {
    pub fn as_str(self) -> (s: &'static str)
        ensures
            s@ == runtime_name(self),
    {
        match self {
            ModelRuntime::Local => "local",
            ModelRuntime::Cloud => "cloud",
        }
    }
}

/// Request to execute the model chosen by the router.
#[derive(Debug, PartialEq)]
pub struct CompleteRequest {
    pub model_id: String,
    /// The whole session flattened to text (see [`format_session_prompt`]).
    pub prompt: String,
    /// The session messages, for chat-style providers.
    pub messages: Option<Vec<SessionMessage>>,
    pub cwd: Option<String>,
    pub runtime: ModelRuntime,
    pub cloud_repos: Option<Vec<String>>,
    /// Provider parameters such as `max_tokens` and `temperature`.
    pub model_params: Option<Json>,
    pub timeout_ms: Option<u64>,
}

/// Result of a model completion.
#[derive(Debug, PartialEq)]
pub struct CompleteResponse {
    pub model_output: String,
    /// Provider that produced the output (`stub`, `databricks-ai-gateway`, ...).
    pub source: String,
    pub model_id: String,
    pub run_id: Option<String>,
    pub usage: Option<UsageMeta>,
    pub raw_meta: Option<Json>,
}

#[derive(Debug, Clone, Copy, PartialEq, Eq)]
pub struct UsageMeta {
    pub input_tokens: Option<u32>,
    pub output_tokens: Option<u32>,
}

/// Executes a chosen model.
///
/// `list_models` supplies the Choice allowlist and token prices; the
/// routed `chosen_model` is the id handed to `complete`. Providers talk to
/// the outside world, so nothing is assumed of their answers.
pub trait ModelProvider {
    fn name(&self) -> &'static str;

    fn list_models(&self) -> Result<Vec<ModelInfo>, ModelProviderError>;

    /// `r` is a result this provider gives for `req`. An implementation
    /// that knows its results states them here; by default any result is
    /// possible.
    open spec fn completes(&self, req: CompleteRequest, r: Result<CompleteResponse, ModelProviderError>) -> bool {
        true
    }

    fn complete(&self, req: &CompleteRequest) -> (r: Result<CompleteResponse, ModelProviderError>)
        ensures
            self.completes(*req, r),
    ;
}

/// One session message as prompt text: `[role]`, a newline, the content.
pub open spec fn message_block(m: SessionMessage) -> Seq<char> {
    "["@ + role_name(m.role) + "]\n"@ + m.content@
}

/// The session as one prompt: the message blocks separated by blank lines.
pub open spec fn session_prompt(session: Seq<SessionMessage>) -> Seq<char> {
    join(Seq::new(session.len(), |i: int| message_block(session[i])), "\n\n"@)
}

/// Flattens a session into prompt text, keeping system instructions.
pub fn format_session_prompt(session: &[SessionMessage]) -> (r: String)
    ensures
        r@ == session_prompt(session@),
{
    let mut parts: Vec<String> = Vec::new();
    let n = session.len();
    let mut i: usize = 0;
    while i < n
        invariant
            n == session@.len(),
            i <= n,
            parts@.len() == i,
            forall|j: int| 0 <= j < i ==> (#[trigger] parts@[j])@ == message_block(session@[j]),
        decreases n - i,
    {
        let m = &session[i];
        let mut block = "[".to_owned();
        block.append(m.role.wire_name());
        block.append("]\n");
        block.append(m.content.as_str());
        parts.push(block);
        i = i + 1;
    }
    let r = join_strings(&parts, "\n\n");
    assert(views_of(parts@) =~= Seq::new(session@.len(), |i: int| message_block(session@[i])));
    r
}

/// Copies the session messages.
fn copy_session(session: &[SessionMessage]) -> (r: Vec<SessionMessage>)
    ensures
        r@ == session@,
{
    let mut out: Vec<SessionMessage> = Vec::new();
    let n = session.len();
    let mut i: usize = 0;
    while i < n
        invariant
            n == session@.len(),
            i <= n,
            out@ == session@.take(i as int),
        decreases n - i,
    {
        out.push(session[i].clone());
        proof {
            assert(session@.take(i as int + 1) =~= session@.take(i as int).push(session@[i as int]));
        }
        i = i + 1;
    }
    assert(session@.take(n as int) =~= session@);
    out
}

/// Builds the execution request for a routed session: the whole session as
/// prompt and as messages, local runtime, no extra parameters.
pub fn complete_request_from_session(model_id: &str, session: &[SessionMessage], cwd: Option<String>) -> (r: CompleteRequest)
    ensures
        r.model_id@ == model_id@,
        r.prompt@ == session_prompt(session@),
        r.messages is Some && r.messages.unwrap()@ == session@,
        r.cwd == cwd,
        r.runtime == ModelRuntime::Local,
        r.cloud_repos is None,
        r.model_params is None,
        r.timeout_ms is None,
{
    CompleteRequest {
        model_id: model_id.to_owned(),
        prompt: format_session_prompt(session),
        messages: Some(copy_session(session)),
        cwd,
        runtime: ModelRuntime::Local,
        cloud_repos: None,
        model_params: None,
        timeout_ms: None,
    }
}

/// The provider model ids, in list order.
pub open spec fn model_ids(models: Seq<ModelInfo>) -> Seq<Seq<char>> {
    Seq::new(models.len(), |i: int| models[i].id@)
}

/// Index `i` holds the first requested id the provider does not list.
pub open spec fn first_unlisted(models: Seq<ModelInfo>, requested: Seq<String>, i: int) -> bool {
    &&& 0 <= i < requested.len()
    &&& !model_ids(models).contains(requested[i]@)
    &&& forall|j: int| 0 <= j < i ==> model_ids(models).contains(#[trigger] requested[j]@)
}

/// The allowlist taken from a provider: the requested ids when some are
/// requested, else every listed id.
pub open spec fn provider_allowlist(models: Seq<ModelInfo>, requested: Seq<String>) -> Seq<Seq<char>> {
    if requested.len() > 0 { string_views(requested) } else { model_ids(models) }
}

fn provider_ids(models: &[ModelInfo]) -> (r: Vec<String>)
    ensures
        views_of(r@) == model_ids(models@),
{
    let mut out: Vec<String> = Vec::new();
    let n = models.len();
    let mut i: usize = 0;
    while i < n
        invariant
            n == models@.len(),
            i <= n,
            out@.len() == i,
            forall|j: int| 0 <= j < i ==> (#[trigger] out@[j])@ == models@[j].id@,
        decreases n - i,
    {
        out.push(models[i].id.clone());
        i = i + 1;
    }
    assert(views_of(out@) =~= model_ids(models@));
    out
}

/// The Choice allowlist and the cost/cache catalog, both from a provider's
/// `list_models()`.
///
/// With requested ids, each must be a listed id and they form the
/// allowlist; without, every listed id does. The current model, when
/// given, must be on the allowlist.
pub fn allowlist_from_provider(models: &[ModelInfo], requested: &[String], current: Option<&str>) -> (r: Result<
    (Vec<String>, ModelCatalog),
    RouterError,
>)
    ensures
        models@.len() == 0 ==> r matches Err(RouterError::EmptyAllowlist),
        models@.len() > 0 && (exists|i: int| first_unlisted(models@, requested@, i)) ==> (r matches Err(
            RouterError::MissingCatalogEntry(id),
        ) && exists|i: int| first_unlisted(models@, requested@, i) && id@ == requested@[i]@),
        models@.len() > 0 && !(exists|i: int| first_unlisted(models@, requested@, i)) && current is Some
            && !provider_allowlist(models@, requested@).contains(current.unwrap()@) ==> (r matches Err(
            RouterError::CurrentNotAllowlisted(c),
        ) && c@ == current.unwrap()@),
        models@.len() > 0 && !(exists|i: int| first_unlisted(models@, requested@, i)) && (current is Some
            ==> provider_allowlist(models@, requested@).contains(current.unwrap()@)) ==> (r matches Ok(
            (allow, catalog),
        ) && views_of(allow@) == provider_allowlist(models@, requested@) && catalog.models@ == catalog_of_infos(
            models@,
        )),
{
    if models.len() == 0 {
        return Err(RouterError::EmptyAllowlist);
    }
    let ids = provider_ids(models);
    let ghost listed = model_ids(models@);
    let allow: Vec<String> = if requested.len() > 0 {
        let n = requested.len();
        let mut out: Vec<String> = Vec::new();
        let mut i: usize = 0;
        while i < n
            invariant
                n == requested@.len(),
                i <= n,
                models@.len() > 0,
                views_of(ids@) == listed,
                listed == model_ids(models@),
                out@.len() == i,
                forall|j: int| 0 <= j < i ==> (#[trigger] out@[j])@ == requested@[j]@,
                forall|j: int| 0 <= j < i ==> listed.contains(#[trigger] requested@[j]@),
            decreases n - i,
        {
            if !contains_text(ids.as_slice(), requested[i].as_str()) {
                proof {
                    assert(first_unlisted(models@, requested@, i as int));
                }
                return Err(RouterError::MissingCatalogEntry(requested[i].clone()));
            }
            out.push(requested[i].clone());
            i = i + 1;
        }
        proof {
            assert(views_of(out@) =~= string_views(requested@));
            if exists|k: int| first_unlisted(models@, requested@, k) {
                let k = choose|k: int| first_unlisted(models@, requested@, k);
                assert(listed.contains(requested@[k]@));
            }
        }
        out
    } else {
        ids
    };
    assert(views_of(allow@) == provider_allowlist(models@, requested@));
    if let Some(c) = current {
        if !contains_text(allow.as_slice(), c) {
            return Err(RouterError::CurrentNotAllowlisted(c.to_owned()));
        }
    }
    let catalog = ModelCatalog::from_model_infos(models);
    Ok((allow, catalog))
}

/// Every listed card's id is in the catalog built from the cards.
pub proof fn lemma_catalog_lists_every_id(models: Seq<ModelInfo>)
    ensures
        forall|i: int| 0 <= i < models.len() ==> catalog_of_infos(models).contains_key(#[trigger] models[i].id@),
    decreases models.len(),
{
    if models.len() > 0 {
        lemma_catalog_lists_every_id(models.drop_last());
        assert forall|i: int| 0 <= i < models.len() implies catalog_of_infos(models).contains_key(#[trigger] models[i].id@) by {
            if i < models.len() - 1 {
                assert(models.drop_last()[i] == models[i]);
            }
        }
    }
}

proof fn lemma_listed_upto(models: Seq<ModelInfo>, requested: Seq<String>, n: int)
    requires
        0 <= n <= requested.len(),
        !(exists|i: int| first_unlisted(models, requested, i)),
    ensures
        forall|i: int| 0 <= i < n ==> model_ids(models).contains(#[trigger] requested[i]@),
    decreases n,
{
    if n > 0 {
        lemma_listed_upto(models, requested, n - 1);
        if !model_ids(models).contains(requested[n - 1]@) {
            assert(first_unlisted(models, requested, n - 1));
        }
    }
}

/// The allowlist and catalog taken from a provider always agree: a request
/// on that allowlist (naming, if any, an allowlisted current model) is
/// enriched without a missing catalog entry.
pub proof fn lemma_provider_allowlist_enrichable(
    models: Seq<ModelInfo>,
    requested: Seq<String>,
    catalog: ModelCatalog,
    request: crate::types::RouterRequest,
)
    requires
        models.len() > 0,
        !(exists|i: int| first_unlisted(models, requested, i)),
        catalog.models@ == catalog_of_infos(models),
        views_of(request.allowlist@) == provider_allowlist(models, requested),
        request.current_model is Some ==> provider_allowlist(models, requested).contains(request.current_model.unwrap()@),
    ensures
        crate::router::request_enrichable(catalog, request),
{
    lemma_catalog_lists_every_id(models);
    lemma_listed_upto(models, requested, requested.len() as int);
    let allow = request.allowlist@;
    let ids = model_ids(models);
    assert(views_of(allow).len() == allow.len());
    assert forall|i: int| 0 <= i < allow.len() implies catalog.models@.contains_key(#[trigger] allow[i]@) by {
        assert(views_of(allow)[i] == allow[i]@);
        if requested.len() > 0 {
            assert(string_views(requested)[i] == requested[i]@);
            assert(ids.contains(requested[i]@));
            let k = choose|k: int| 0 <= k < ids.len() && ids[k] == allow[i]@;
            assert(ids[k] == models[k].id@);
        } else {
            assert(ids[i] == models[i].id@);
        }
    }
    if request.current_model is Some {
        assert(string_views(request.allowlist@) =~= views_of(request.allowlist@));
    }
}

} // verus!
