//! Offline model execution for fixtures and demos.
//!
//! The stub ids match the Cursor provider ids, so the Choice allowlist is
//! the execute id. Its prices are obvious fixture rates, not live quotes.

use vstd::prelude::*;

use super::{
    infos_match, mk_card, model_card, CompleteRequest, CompleteResponse, ModelCard, ModelInfo,
    ModelProvider, UsageMeta,
};
use crate::catalog::ModelTier;
use crate::error::ModelProviderError;
use crate::json::{make_object, members_view, push_member, json_str, Json, JsonView, jopt_str};
use crate::pack::opt_task_class_name;
use crate::text::{contains_str, has_sub, lowercase, to_lowercase};
use crate::types::TaskClass;

verus! {

/// Deterministic stub: visible fixture text, no network.
#[derive(Debug, Clone, Copy, PartialEq, Eq)]
pub struct StubModelProvider {
    /// Task class hint that shapes the fixture output.
    pub task_class: Option<TaskClass>,
}

/// The stub under the name the model-source examples use.
pub type StubModelSource = StubModelProvider;

impl StubModelProvider {
    pub fn new() -> (r: Self)
        ensures
            r.task_class is None,
    {
        StubModelProvider { task_class: None }
    }

    pub fn with_task_class(task_class: Option<TaskClass>) -> (r: Self)
        ensures
            r.task_class == task_class,
    {
        StubModelProvider { task_class }
    }
}

/// The fixture cards (USD per MTok: composer-2.5 1.00 in / 2.00 out /
/// 0.10 cache read / 0.50 cache write, and so on).
pub open spec fn stub_cards() -> Seq<ModelCard> {
    seq![
        mk_card("composer-2.5"@, "stub fixture · cheap / cache-friendly"@, 1_000_000, 2_000_000, Some(100_000), Some(500_000), Some(ModelTier::Small)),
        mk_card("composer-2.5-fast"@, "stub fixture · fast small"@, 5_000_000, 10_000_000, Some(1_000_000), None, Some(ModelTier::Small)),
        mk_card("grok-4.6"@, "stub fixture · mid"@, 3_000_000, 8_000_000, Some(500_000), None, Some(ModelTier::Mid)),
        mk_card("grok-4.6-fast"@, "stub fixture · fast mid"@, 6_000_000, 16_000_000, Some(1_500_000), None, Some(ModelTier::Mid)),
        mk_card("grok-4.5"@, "stub fixture · frontier-ish"@, 4_000_000, 12_000_000, Some(500_000), None, Some(ModelTier::Frontier)),
        mk_card("grok-4.5-fast"@, "stub fixture · fast frontier"@, 8_000_000, 24_000_000, Some(2_000_000), None, Some(ModelTier::Frontier)),
    ]
}

fn stub_model_cards() -> (v: Vec<ModelInfo>)
    ensures
        infos_match(v@, stub_cards()),
{
    let v = vec![
        model_card("composer-2.5", "stub fixture · cheap / cache-friendly", 1_000_000, 2_000_000, Some(100_000), Some(500_000), Some(ModelTier::Small)),
        model_card("composer-2.5-fast", "stub fixture · fast small", 5_000_000, 10_000_000, Some(1_000_000), None, Some(ModelTier::Small)),
        model_card("grok-4.6", "stub fixture · mid", 3_000_000, 8_000_000, Some(500_000), None, Some(ModelTier::Mid)),
        model_card("grok-4.6-fast", "stub fixture · fast mid", 6_000_000, 16_000_000, Some(1_500_000), None, Some(ModelTier::Mid)),
        model_card("grok-4.5", "stub fixture · frontier-ish", 4_000_000, 12_000_000, Some(500_000), None, Some(ModelTier::Frontier)),
        model_card("grok-4.5-fast", "stub fixture · fast frontier", 8_000_000, 24_000_000, Some(2_000_000), None, Some(ModelTier::Frontier)),
    ];
    assert(infos_match(v@, stub_cards()));
    v
}

pub open spec fn code_fix_text() -> Seq<char> {
    "Fixed off-by-one: use `items.slice(start, start + pageSize)` (keep public API)."@
}

pub open spec fn long_reason_text() -> Seq<char> {
    "Recommend Raft-style consensus for the multi-region queue; document split-brain and leader failover (stub)."@
}

pub open spec fn creative_text() -> Seq<char> {
    "1) Pack light. Walk loud.\n2) Mud is a feature.\n3) Trails > trends."@
}

pub open spec fn tool_use_text() -> Seq<char> {
    "CI fails in auth.test.ts on expired fixture token; patch: refresh mock JWT in beforeEach (stub)."@
}

/// The fixture guessed from the lowercased prompt: `billing` for a billing
/// or support-label prompt, a pagination fix for an off-by-one or
/// pagination prompt, else a tagged `ok`.
pub open spec fn guessed_text(lower: Seq<char>, model_id: Seq<char>) -> Seq<char> {
    if has_sub(lower, "billing"@) || has_sub(lower, "label this support"@) {
        "billing"@
    } else if has_sub(lower, "off-by-one"@) || has_sub(lower, "pagination"@) {
        "Fixed off-by-one: use `items.slice(start, start + pageSize)`."@
    } else {
        "[stub:"@ + model_id + "] ok"@
    }
}

/// The fixture text for a task class; without one, a guess from the
/// lowercased prompt.
pub open spec fn fixture_text(task: Option<TaskClass>, prompt: Seq<char>, model_id: Seq<char>) -> Seq<char> {
    match task {
        Some(TaskClass::ShortClassify) => "billing"@,
        Some(TaskClass::Code) => code_fix_text(),
        Some(TaskClass::LongReason) => long_reason_text(),
        Some(TaskClass::Creative) => creative_text(),
        Some(TaskClass::ToolUse) => tool_use_text(),
        None => guessed_text(lowercase(prompt), model_id),
    }
}

/// The stub text for a prompt with no task class, given the prompt already
/// lowercased.
pub fn guessed_fixture(lower: &str, model_id: &str) -> (r: String)
    ensures
        r@ == guessed_text(lower@, model_id@),
{
    if contains_str(lower, "billing") || contains_str(lower, "label this support") {
        "billing".to_owned()
    } else if contains_str(lower, "off-by-one") || contains_str(lower, "pagination") {
        "Fixed off-by-one: use `items.slice(start, start + pageSize)`.".to_owned()
    } else {
        let mut s = "[stub:".to_owned();
        s.append(model_id);
        s.append("] ok");
        s
    }
}

/// Visible, recording-friendly stub text.
pub fn fixture_output(task_class: Option<TaskClass>, prompt: &str, model_id: &str) -> (r: String)
    ensures
        r@ == fixture_text(task_class, prompt@, model_id@),
{
    match task_class {
        Some(TaskClass::ShortClassify) => "billing".to_owned(),
        Some(TaskClass::Code) => "Fixed off-by-one: use `items.slice(start, start + pageSize)` (keep public API).".to_owned(),
        Some(TaskClass::LongReason) => "Recommend Raft-style consensus for the multi-region queue; document split-brain and leader failover (stub).".to_owned(),
        Some(TaskClass::Creative) => "1) Pack light. Walk loud.\n2) Mud is a feature.\n3) Trails > trends.".to_owned(),
        Some(TaskClass::ToolUse) => "CI fails in auth.test.ts on expired fixture token; patch: refresh mock JWT in beforeEach (stub).".to_owned(),
        None => {
            let lower = to_lowercase(prompt);
            guessed_fixture(lower.as_str(), model_id)
        },
    }
}

/// `{"stub": true, "task_class": <wire name or null>}`.
pub open spec fn stub_meta(task: Option<TaskClass>) -> JsonView {
    JsonView::Object(seq![("stub"@, JsonView::Bool(true)), ("task_class"@, jopt_str(opt_task_class_name(task)))])
}

/// What the stub returns for `req`: the fixture text, the request's model
/// id, run id `stub-<id>`, a quarter of the prompt's UTF-8 bytes as input
/// tokens, eight output tokens.
pub open spec fn stub_completion(p: StubModelProvider, req: CompleteRequest, r: CompleteResponse) -> bool {
    &&& r.model_output@ == fixture_text(p.task_class, req.prompt@, req.model_id@)
    &&& r.source@ == "stub"@
    &&& r.model_id@ == req.model_id@
    &&& r.run_id is Some && r.run_id.unwrap()@ == "stub-"@ + req.model_id@
    &&& r.usage == Some(UsageMeta {
        input_tokens: Some(((vstd::utf8::encode_utf8(req.prompt@).len() as usize) / 4) as u32),
        output_tokens: Some(8),
    })
    &&& r.raw_meta is Some && r.raw_meta.unwrap()@ == stub_meta(p.task_class)
}

impl ModelProvider for StubModelProvider {
    open spec fn completes(&self, req: CompleteRequest, r: Result<CompleteResponse, ModelProviderError>) -> bool {
        r matches Ok(resp) && stub_completion(*self, req, resp)
    }

    fn name(&self) -> (s: &'static str)
        ensures
            s@ == "stub"@,
    {
        "stub"
    }

    fn list_models(&self) -> (r: Result<Vec<ModelInfo>, ModelProviderError>)
        ensures
            r matches Ok(v) && infos_match(v@, stub_cards()),
    {
        Ok(stub_model_cards())
    }

    fn complete(&self, req: &CompleteRequest) -> (r: Result<CompleteResponse, ModelProviderError>)
        ensures
            r matches Ok(resp) && stub_completion(*self, *req, resp),
    {
        let output = fixture_output(self.task_class, req.prompt.as_str(), req.model_id.as_str());
        let mut run_id = "stub-".to_owned();
        run_id.append(req.model_id.as_str());
        let bytes = req.prompt.as_str().len();
        let input_tokens = #[verifier::truncate] ((bytes / 4) as u32);
        let task = match self.task_class {
            Some(t) => json_str(t.wire_name()),
            None => Json::Null,
        };
        let mut members: Vec<(String, Json)> = Vec::new();
        assert(members_view(members@) =~= Seq::empty());
        push_member(&mut members, "stub", Json::Bool(true));
        push_member(&mut members, "task_class", task);
        proof {
            match stub_meta(self.task_class) {
                JsonView::Object(expect) => assert(members_view(members@) =~= expect),
                _ => {},
            }
        }
        let meta = make_object(members);
        Ok(CompleteResponse {
            model_output: output,
            source: "stub".to_owned(),
            model_id: req.model_id.clone(),
            run_id: Some(run_id),
            usage: Some(UsageMeta { input_tokens: Some(input_tokens), output_tokens: Some(8) }),
            raw_meta: Some(meta),
        })
    }
}

} // verus!
