//! Pack enriched session context into a System One request: the state to
//! evaluate plus two Choice questions (which model next, and why).

use vstd::prelude::*;

use crate::catalog::{tier_description, tier_name, EnrichedCandidate, ModelTier};
use crate::json::{
    elems_view, jopt_bool, jopt_fixed, jopt_int, jopt_str, json_opt_bool, json_opt_fixed,
    json_opt_str, json_opt_u32, json_str, make_array, make_object, members_view, push_elem,
    push_member, bool_of, lemma_member_at, opt_u32_value, text_of, Json, JsonView,
};
use crate::keyed_map::KeyedMap;
use crate::model_provider::{opt_string_view, opt_u64_nat};
use crate::text::{bool_str, bool_text, fixed_text, join, join_strings, push_fixed, views_of};
use crate::types::{
    complexity_name, latency_name, length_name, prefix_reuse_name, role_name, task_class_name,
    ComplexityHint, LatencyMode, LengthHint, PrefixReuse, RouterRequest, SessionMessage, TaskClass,
};
use crate::typesafe::api::{ChoiceQuestion, Question, SystemOneRequest};
use crate::typesafe::stub::signal;

verus! {

/// Default System One model alias.
pub const DEFAULT_SYSTEM_ONE_MODEL: &'static str = "jev-latest";

/// Question id for the primary routing Choice.
pub const ROUTE_QUESTION_ID: &'static str = "route_to";

/// Question id for the structured tradeoff reason Choice.
pub const WHY_QUESTION_ID: &'static str = "primary_reason";

pub const ROUTE_INSTRUCTIONS: &'static str = "Which LLM should handle the next turn of this session? Follow decision-rules: prefer the cheapest tier that meets capability needs; prefer stronger prompt-cache stories when prefixes are shared and stable; weight latency only when latency_mode is interactive. Prefer continuing on the current model when cache locality meaningfully reduces cost without sacrificing needed quality. Only pick from the candidate model ids listed in criteria.";

pub const WHY_INSTRUCTIONS: &'static str = "What is the primary reason for the model choice in route_to? Pick exactly one axis.";

/// `$` and a micro-USD price with four fraction digits.
pub open spec fn dollars4(micros: nat) -> Seq<char> {
    "$"@ + fixed_text(micros, 100, 4)
}

/// The pieces of a candidate's Choice criterion, in order.
pub open spec fn criterion_parts(c: EnrichedCandidate) -> Seq<Seq<char>> {
    let p = c.profile;
    (match p.tier {
        Some(t) => seq![tier_name(t) + " ("@ + tier_description(t) + ")"@],
        None => Seq::empty(),
    }) + (if c.is_current {
        seq!["CURRENT model — continuing likely keeps prompt-cache hits"@]
    } else {
        Seq::empty()
    }) + seq![
        "tool_capable="@ + bool_text(p.tool_capable),
        "cache_eligible="@ + bool_text(p.cache_eligible),
        "input="@ + dollars4(p.input_usd_per_mtok as nat) + "/MTok output="@ + dollars4(
            p.output_usd_per_mtok as nat,
        ) + "/MTok"@,
    ] + (match (p.cost_band_in, p.cost_band_out) {
        (Some(i), Some(o)) => seq!["bands in="@ + i@ + " out="@ + o@],
        _ => Seq::empty(),
    }) + (match p.notes {
        Some(n) => seq![n@],
        None => Seq::empty(),
    })
}

/// A candidate's Choice criterion: its pieces joined with `"; "`.
pub open spec fn criterion_text(c: EnrichedCandidate) -> Seq<char> {
    join(criterion_parts(c), "; "@)
}

pub fn format_candidate_criterion(c: &EnrichedCandidate) -> (r: String)
    ensures
        r@ == criterion_text(*c),
{
    let p = &c.profile;
    let mut parts: Vec<String> = Vec::new();
    let ghost mut expect: Seq<Seq<char>> = Seq::empty();
    if let Some(tier) = p.tier {
        let mut s = String::new();
        s.append(tier.as_str());
        s.append(" (");
        s.append(tier.label());
        s.append(")");
        parts.push(s);
        proof {
            expect = seq![tier_name(tier) + " ("@ + tier_description(tier) + ")"@];
            assert(views_of(parts@) =~= expect);
        }
    }
    if c.is_current {
        parts.push("CURRENT model — continuing likely keeps prompt-cache hits".to_owned());
        proof {
            expect = expect + seq!["CURRENT model — continuing likely keeps prompt-cache hits"@];
            assert(views_of(parts@) =~= expect);
        }
    }
    let mut s1 = String::new();
    s1.append("tool_capable=");
    s1.append(bool_str(p.tool_capable));
    parts.push(s1);
    let mut s2 = String::new();
    s2.append("cache_eligible=");
    s2.append(bool_str(p.cache_eligible));
    parts.push(s2);
    let mut s3 = String::new();
    s3.append("input=");
    s3.append("$");
    push_fixed(&mut s3, p.input_usd_per_mtok, 100, 4);
    s3.append("/MTok output=");
    s3.append("$");
    push_fixed(&mut s3, p.output_usd_per_mtok, 100, 4);
    s3.append("/MTok");
    parts.push(s3);
    proof {
        assert(s3@ =~= "input="@ + dollars4(p.input_usd_per_mtok as nat) + "/MTok output="@ + dollars4(
            p.output_usd_per_mtok as nat,
        ) + "/MTok"@);
        expect = expect + seq![
            "tool_capable="@ + bool_text(p.tool_capable),
            "cache_eligible="@ + bool_text(p.cache_eligible),
            "input="@ + dollars4(p.input_usd_per_mtok as nat) + "/MTok output="@ + dollars4(
                p.output_usd_per_mtok as nat,
            ) + "/MTok"@,
        ];
        assert(views_of(parts@) =~= expect);
    }
    if let (Some(i), Some(o)) = (&p.cost_band_in, &p.cost_band_out) {
        let mut s4 = String::new();
        s4.append("bands in=");
        s4.append(i.as_str());
        s4.append(" out=");
        s4.append(o.as_str());
        parts.push(s4);
        proof {
            expect = expect + seq!["bands in="@ + i@ + " out="@ + o@];
            assert(views_of(parts@) =~= expect);
        }
    }
    if let Some(notes) = &p.notes {
        parts.push(notes.clone());
        proof {
            expect = expect + seq![notes@];
            assert(views_of(parts@) =~= expect);
        }
    }
    proof {
        assert(views_of(parts@) =~= expect);
        assert(expect =~= criterion_parts(*c));
    }
    join_strings(&parts, "; ")
}

/// Criteria of the `route_to` Choice: one option per candidate id (a later
/// row for the same id wins) described by its criterion text.
pub open spec fn route_criteria_view(cands: Seq<EnrichedCandidate>) -> Map<Seq<char>, Option<Seq<char>>>
    decreases cands.len(),
{
    if cands.len() == 0 {
        Map::empty()
    } else {
        route_criteria_view(cands.drop_last()).insert(
            cands.last().model_id@,
            Some(criterion_text(cands.last())),
        )
    }
}

/// The text view of a criteria map.
pub open spec fn criteria_text(m: Map<Seq<char>, Option<String>>) -> Map<Seq<char>, Option<Seq<char>>> {
    m.map_values(|o: Option<String>| opt_string_view(o))
}

pub fn build_route_criteria(cands: &[EnrichedCandidate]) -> (m: KeyedMap<Option<String>>)
    ensures
        criteria_text(m@) == route_criteria_view(cands@),
{
    let mut m: KeyedMap<Option<String>> = KeyedMap::new();
    let n = cands.len();
    let mut i: usize = 0;
    proof {
        assert(criteria_text(m@) =~= route_criteria_view(cands@.take(0)));
    }
    while i < n
        invariant
            n == cands@.len(),
            i <= n,
            criteria_text(m@) == route_criteria_view(cands@.take(i as int)),
        decreases n - i,
    {
        let desc = format_candidate_criterion(&cands[i]);
        let ghost old_m = m@;
        m.insert(cands[i].model_id.clone(), Some(desc));
        proof {
            let t = cands@.take(i as int + 1);
            assert(t.drop_last() =~= cands@.take(i as int));
            assert(criteria_text(m@) =~= criteria_text(old_m).insert(
                cands@[i as int].model_id@,
                Some(criterion_text(cands@[i as int])),
            ));
        }
        i = i + 1;
    }
    proof {
        assert(cands@.take(n as int) =~= cands@);
    }
    m
}

pub open spec fn why_base_criteria() -> Map<Seq<char>, Option<Seq<char>>> {
    map![
        "cost"@ => Some("Primarily minimize dollar spend for adequate quality"@),
        "cache"@ => Some("Primarily optimize prompt-cache economics (read vs write / locality)"@),
        "quality"@ => Some("Primarily improve expected answer quality / capability"@),
    ]
}

/// Criteria of the `primary_reason` Choice: cost, cache and quality, plus
/// continue_current when the session has a current model.
pub open spec fn why_criteria_view(has_current: bool) -> Map<Seq<char>, Option<Seq<char>>> {
    if has_current {
        why_base_criteria().insert(
            "continue_current"@,
            Some("Stay on the current model mainly to preserve cache / avoid switch cost"@),
        )
    } else {
        why_base_criteria()
    }
}

pub fn why_reason_criteria(has_current: bool) -> (m: KeyedMap<Option<String>>)
    ensures
        criteria_text(m@) == why_criteria_view(has_current),
{
    let mut m: KeyedMap<Option<String>> = KeyedMap::new();
    assert(criteria_text(m@) =~= Map::empty());
    let ghost m0 = criteria_text(m@);
    if has_current {
        insert_text(
            &mut m,
            "continue_current",
            "Stay on the current model mainly to preserve cache / avoid switch cost",
        );
    }
    let ghost m1 = criteria_text(m@);
    assert(has_current ==> m1 == m0.insert(
        "continue_current"@,
        Some("Stay on the current model mainly to preserve cache / avoid switch cost"@),
    ));
    assert(!has_current ==> m1 == m0);
    insert_text(&mut m, "cost", "Primarily minimize dollar spend for adequate quality");
    insert_text(&mut m, "cache", "Primarily optimize prompt-cache economics (read vs write / locality)");
    insert_text(&mut m, "quality", "Primarily improve expected answer quality / capability");
    proof {
        reveal_strlit("continue_current");
        reveal_strlit("cost");
        reveal_strlit("cache");
        reveal_strlit("quality");
        assert("continue_current"@.len() == 16);
        assert("cost"@.len() == 4);
        assert("cache"@.len() == 5);
        assert("quality"@.len() == 7);
        let cc = "continue_current"@;
        let cd = Some("Stay on the current model mainly to preserve cache / avoid switch cost"@);
        let base = why_base_criteria();
        if has_current {
            assert(m1 =~= map![cc => cd]);
            lemma_insert_front(
                cc, cd,
                "cost"@, Some("Primarily minimize dollar spend for adequate quality"@),
                "cache"@, Some("Primarily optimize prompt-cache economics (read vs write / locality)"@),
                "quality"@, Some("Primarily improve expected answer quality / capability"@),
            );
            assert(criteria_text(m@) =~= base.insert(cc, cd));
        } else {
            assert(criteria_text(m@) =~= base);
        }
    }
    m
}

proof fn lemma_insert_front<K, V>(k0: K, v0: V, k1: K, v1: V, k2: K, v2: V, k3: K, v3: V)
    requires
        k0 != k1,
        k0 != k2,
        k0 != k3,
    ensures
        map![k0 => v0].insert(k1, v1).insert(k2, v2).insert(k3, v3) == map![k1 => v1, k2 => v2, k3 => v3].insert(k0, v0),
{
    assert(map![k0 => v0].insert(k1, v1).insert(k2, v2).insert(k3, v3) =~= map![k1 => v1, k2 => v2, k3 => v3].insert(k0, v0));
}

/// Inserts option `key` with description `desc`.
pub fn insert_text(m: &mut KeyedMap<Option<String>>, key: &str, desc: &str)
    ensures
        criteria_text(final(m)@) == criteria_text(old(m)@).insert(key@, Some(desc@)),
{
    let ghost before = m@;
    m.insert(key.to_owned(), Some(desc.to_owned()));
    assert(criteria_text(m@) =~= criteria_text(before).insert(key@, Some(desc@)));
}

pub open spec fn opt_task_class_name(o: Option<TaskClass>) -> Option<Seq<char>> {
    match o {
        Some(t) => Some(task_class_name(t)),
        None => None,
    }
}

pub open spec fn opt_length_name(o: Option<LengthHint>) -> Option<Seq<char>> {
    match o {
        Some(t) => Some(length_name(t)),
        None => None,
    }
}

pub open spec fn opt_complexity_name(o: Option<ComplexityHint>) -> Option<Seq<char>> {
    match o {
        Some(t) => Some(complexity_name(t)),
        None => None,
    }
}

pub open spec fn opt_latency_name(o: Option<LatencyMode>) -> Option<Seq<char>> {
    match o {
        Some(t) => Some(latency_name(t)),
        None => None,
    }
}

pub open spec fn opt_prefix_reuse_name(o: Option<PrefixReuse>) -> Option<Seq<char>> {
    match o {
        Some(t) => Some(prefix_reuse_name(t)),
        None => None,
    }
}

pub open spec fn opt_tier_name(o: Option<ModelTier>) -> Option<Seq<char>> {
    match o {
        Some(t) => Some(tier_name(t)),
        None => None,
    }
}

pub open spec fn opt_u32_nat(o: Option<u32>) -> Option<nat> {
    match o {
        Some(n) => Some(n as nat),
        None => None,
    }
}

/// `{"role": ..., "content": ...}` of one session message.
pub open spec fn message_json(m: SessionMessage) -> JsonView {
    JsonView::Object(
        seq![("role"@, JsonView::Str(role_name(m.role))), ("content"@, JsonView::Str(m.content@))],
    )
}

/// The decision signals of a request, `null` where not supplied.
pub open spec fn signals_json(r: RouterRequest) -> JsonView {
    JsonView::Object(
        seq![
            ("task_class"@, jopt_str(opt_task_class_name(r.task_class))),
            ("length"@, jopt_str(opt_length_name(r.length))),
            ("complexity"@, jopt_str(opt_complexity_name(r.complexity))),
            ("tools_required"@, jopt_bool(r.tools_required)),
            ("latency_mode"@, jopt_str(opt_latency_name(r.latency_mode))),
            ("prefix_reuse"@, jopt_str(opt_prefix_reuse_name(r.prefix_reuse))),
            ("prefix_tokens_est"@, jopt_int(opt_u32_nat(r.prefix_tokens_est))),
            ("tokens_in_est"@, jopt_int(opt_u32_nat(r.tokens_in_est))),
            ("tokens_out_est"@, jopt_int(opt_u32_nat(r.tokens_out_est))),
        ],
    )
}

/// What a reader of the packed routing state finds under `signals` is the
/// request's own signals, each under its own name: the token estimates as
/// the request's integers (none when absent), tools as its flag, and the
/// task class, length, complexity, latency mode and prefix reuse as their
/// wire names.
pub proof fn lemma_packed_signals_read_back(req: SystemOneRequest, r: RouterRequest, cands: Seq<EnrichedCandidate>, model: Seq<char>)
    requires
        packed_request(req, r, cands, model),
    ensures
        opt_u32_value(signal(req.state@, "tokens_in_est"@)) == r.tokens_in_est,
        opt_u32_value(signal(req.state@, "tokens_out_est"@)) == r.tokens_out_est,
        opt_u32_value(signal(req.state@, "prefix_tokens_est"@)) == r.prefix_tokens_est,
        bool_of(signal(req.state@, "tools_required"@)) == r.tools_required,
        text_of(signal(req.state@, "task_class"@)) == opt_task_class_name(r.task_class),
        text_of(signal(req.state@, "length"@)) == opt_length_name(r.length),
        text_of(signal(req.state@, "complexity"@)) == opt_complexity_name(r.complexity),
        text_of(signal(req.state@, "latency_mode"@)) == opt_latency_name(r.latency_mode),
        text_of(signal(req.state@, "prefix_reuse"@)) == opt_prefix_reuse_name(r.prefix_reuse),
{
    lemma_state_keys_distinct();
    let state_members = state_json(r, cands)->Object_0;
    let sig_members = signals_json(r)->Object_0;
    assert forall|j: int| 0 <= j < 4 implies state_members[j].0 != "signals"@ by {
        if j == 0 {
        } else if j == 1 {
        } else if j == 2 {
        } else if j == 3 {
        }
    }
    lemma_member_at(state_members, "signals"@, 4);
    lemma_member_at(sig_members, "task_class"@, 0);
    assert forall|j: int| 0 <= j < 1 implies sig_members[j].0 != "length"@ by {
        if j == 0 {
        }
    }
    lemma_member_at(sig_members, "length"@, 1);
    assert forall|j: int| 0 <= j < 2 implies sig_members[j].0 != "complexity"@ by {
        if j == 0 {
        } else if j == 1 {
        }
    }
    lemma_member_at(sig_members, "complexity"@, 2);
    assert forall|j: int| 0 <= j < 3 implies sig_members[j].0 != "tools_required"@ by {
        if j == 0 {
        } else if j == 1 {
        } else if j == 2 {
        }
    }
    lemma_member_at(sig_members, "tools_required"@, 3);
    assert forall|j: int| 0 <= j < 4 implies sig_members[j].0 != "latency_mode"@ by {
        if j == 0 {
        } else if j == 1 {
        } else if j == 2 {
        } else if j == 3 {
        }
    }
    lemma_member_at(sig_members, "latency_mode"@, 4);
    assert forall|j: int| 0 <= j < 5 implies sig_members[j].0 != "prefix_reuse"@ by {
        if j == 0 {
        } else if j == 1 {
        } else if j == 2 {
        } else if j == 3 {
        } else if j == 4 {
        }
    }
    lemma_member_at(sig_members, "prefix_reuse"@, 5);
    assert forall|j: int| 0 <= j < 6 implies sig_members[j].0 != "prefix_tokens_est"@ by {
        if j == 0 {
        } else if j == 1 {
        } else if j == 2 {
        } else if j == 3 {
        } else if j == 4 {
        } else if j == 5 {
        }
    }
    lemma_member_at(sig_members, "prefix_tokens_est"@, 6);
    assert forall|j: int| 0 <= j < 7 implies sig_members[j].0 != "tokens_in_est"@ by {
        if j == 0 {
        } else if j == 1 {
        } else if j == 2 {
        } else if j == 3 {
        } else if j == 4 {
        } else if j == 5 {
        } else if j == 6 {
        }
    }
    lemma_member_at(sig_members, "tokens_in_est"@, 7);
    assert forall|j: int| 0 <= j < 8 implies sig_members[j].0 != "tokens_out_est"@ by {
        if j == 0 {
        } else if j == 1 {
        } else if j == 2 {
        } else if j == 3 {
        } else if j == 4 {
        } else if j == 5 {
        } else if j == 6 {
        } else if j == 7 {
        }
    }
    lemma_member_at(sig_members, "tokens_out_est"@, 8);
}

proof fn lemma_state_keys_distinct()
    ensures
        "task_class"@ != "length"@,
        "task_class"@ != "complexity"@,
        "length"@ != "complexity"@,
        "task_class"@ != "tools_required"@,
        "length"@ != "tools_required"@,
        "complexity"@ != "tools_required"@,
        "task_class"@ != "latency_mode"@,
        "length"@ != "latency_mode"@,
        "complexity"@ != "latency_mode"@,
        "tools_required"@ != "latency_mode"@,
        "task_class"@ != "prefix_reuse"@,
        "length"@ != "prefix_reuse"@,
        "complexity"@ != "prefix_reuse"@,
        "tools_required"@ != "prefix_reuse"@,
        "latency_mode"@ != "prefix_reuse"@,
        "task_class"@ != "prefix_tokens_est"@,
        "length"@ != "prefix_tokens_est"@,
        "complexity"@ != "prefix_tokens_est"@,
        "tools_required"@ != "prefix_tokens_est"@,
        "latency_mode"@ != "prefix_tokens_est"@,
        "prefix_reuse"@ != "prefix_tokens_est"@,
        "task_class"@ != "tokens_in_est"@,
        "length"@ != "tokens_in_est"@,
        "complexity"@ != "tokens_in_est"@,
        "tools_required"@ != "tokens_in_est"@,
        "latency_mode"@ != "tokens_in_est"@,
        "prefix_reuse"@ != "tokens_in_est"@,
        "prefix_tokens_est"@ != "tokens_in_est"@,
        "task_class"@ != "tokens_out_est"@,
        "length"@ != "tokens_out_est"@,
        "complexity"@ != "tokens_out_est"@,
        "tools_required"@ != "tokens_out_est"@,
        "latency_mode"@ != "tokens_out_est"@,
        "prefix_reuse"@ != "tokens_out_est"@,
        "prefix_tokens_est"@ != "tokens_out_est"@,
        "tokens_in_est"@ != "tokens_out_est"@,
        "task"@ != "policy_ref"@,
        "task"@ != "current_model"@,
        "policy_ref"@ != "current_model"@,
        "task"@ != "session"@,
        "policy_ref"@ != "session"@,
        "current_model"@ != "session"@,
        "task"@ != "signals"@,
        "policy_ref"@ != "signals"@,
        "current_model"@ != "signals"@,
        "session"@ != "signals"@,
{
    reveal_strlit("complexity");
    reveal_strlit("current_model");
    reveal_strlit("latency_mode");
    reveal_strlit("length");
    reveal_strlit("policy_ref");
    reveal_strlit("prefix_reuse");
    reveal_strlit("prefix_tokens_est");
    reveal_strlit("session");
    reveal_strlit("signals");
    reveal_strlit("task");
    reveal_strlit("task_class");
    reveal_strlit("tokens_in_est");
    reveal_strlit("tokens_out_est");
    reveal_strlit("tools_required");
    assert("complexity"@.len() == 10);
    assert("current_model"@.len() == 13);
    assert("latency_mode"@.len() == 12);
    assert("length"@.len() == 6);
    assert("policy_ref"@.len() == 10);
    assert("prefix_reuse"@.len() == 12);
    assert("prefix_tokens_est"@.len() == 17);
    assert("session"@.len() == 7);
    assert("signals"@.len() == 7);
    assert("task"@.len() == 4);
    assert("task_class"@.len() == 10);
    assert("tokens_in_est"@.len() == 13);
    assert("tokens_out_est"@.len() == 14);
    assert("tools_required"@.len() == 14);
    assert("task_class"@[0] != "complexity"@[0]);
    assert("latency_mode"@[0] != "prefix_reuse"@[0]);
    assert("tools_required"@[2] != "tokens_out_est"@[2]);
    assert("session"@[1] != "signals"@[1]);
}
/// One candidate row: id, tier, capabilities, current-model flags, prices.
pub open spec fn candidate_json(c: EnrichedCandidate) -> JsonView {
    let p = c.profile;
    JsonView::Object(
        seq![
            ("model_id"@, JsonView::Str(c.model_id@)),
            ("tier"@, jopt_str(opt_tier_name(p.tier))),
            ("tool_capable"@, JsonView::Bool(p.tool_capable)),
            ("cache_eligible"@, JsonView::Bool(p.cache_eligible)),
            ("is_current"@, JsonView::Bool(c.is_current)),
            ("continuing_preserves_prompt_cache"@, JsonView::Bool(c.is_current && p.cache_eligible)),
            ("input_usd_per_mtok"@, JsonView::Fixed(p.input_usd_per_mtok as int)),
            ("output_usd_per_mtok"@, JsonView::Fixed(p.output_usd_per_mtok as int)),
            ("cost_band_in"@, jopt_str(opt_string_view(p.cost_band_in))),
            ("cost_band_out"@, jopt_str(opt_string_view(p.cost_band_out))),
            ("cache_read_usd_per_mtok"@, jopt_fixed(opt_u64_nat(p.cache_read_usd_per_mtok))),
            ("cache_write_usd_per_mtok"@, jopt_fixed(opt_u64_nat(p.cache_write_usd_per_mtok))),
            ("notes"@, jopt_str(opt_string_view(p.notes))),
        ],
    )
}

pub open spec fn guidance_json() -> JsonView {
    JsonView::Object(
        seq![
            ("goal"@, JsonView::Str("Pick the next model for this session."@)),
            (
                "consider"@,
                JsonView::Array(
                    seq![
                        JsonView::Str("capability fit for task_class / complexity"@),
                        JsonView::Str("caching hypothesis from prefix_reuse"@),
                        JsonView::Str("absolute $/MTok and cost bands"@),
                        JsonView::Str("whether continuing on current_model preserves warm prompt cache"@),
                        JsonView::Str("latency only when latency_mode is interactive"@),
                    ],
                ),
            ),
        ],
    )
}

/// The state System One evaluates for a routing decision: the session,
/// the decision signals, one row per candidate and the routing guidance.
pub open spec fn state_json(r: RouterRequest, cands: Seq<EnrichedCandidate>) -> JsonView {
    JsonView::Object(
        seq![
            ("task"@, JsonView::Str("llm_session_routing"@)),
            ("policy_ref"@, JsonView::Str("docs/decision-rules"@)),
            ("current_model"@, jopt_str(opt_string_view(r.current_model))),
            ("session"@, JsonView::Array(Seq::new(r.session@.len(), |i: int| message_json(r.session@[i])))),
            ("signals"@, signals_json(r)),
            ("candidates"@, JsonView::Array(Seq::new(cands.len(), |i: int| candidate_json(cands[i])))),
            ("routing_guidance"@, guidance_json()),
        ],
    )
}

fn message_to_json(m: &SessionMessage) -> (j: Json)
    ensures
        j@ == message_json(*m),
{
    let mut members: Vec<(String, Json)> = Vec::new();
    assert(members_view(members@) =~= Seq::empty());
    push_member(&mut members, "role", json_str(m.role.wire_name()));
    push_member(&mut members, "content", json_str(m.content.as_str()));
    proof {
        let expect = seq![("role"@, JsonView::Str(role_name(m.role))), ("content"@, JsonView::Str(m.content@))];
        assert(members_view(members@) =~= expect);
    }
    make_object(members)
}

#[verifier::rlimit(40)]
fn signals_to_json(r: &RouterRequest) -> (j: Json)
    ensures
        j@ == signals_json(*r),
{
    let task = match r.task_class {
        Some(t) => json_str(t.wire_name()),
        None => Json::Null,
    };
    assert(task@ == jopt_str(opt_task_class_name(r.task_class)));
    let length = match r.length {
        Some(t) => json_str(t.wire_name()),
        None => Json::Null,
    };
    assert(length@ == jopt_str(opt_length_name(r.length)));
    let complexity = match r.complexity {
        Some(t) => json_str(t.wire_name()),
        None => Json::Null,
    };
    assert(complexity@ == jopt_str(opt_complexity_name(r.complexity)));
    let latency = match r.latency_mode {
        Some(t) => json_str(t.wire_name()),
        None => Json::Null,
    };
    assert(latency@ == jopt_str(opt_latency_name(r.latency_mode)));
    let reuse = match r.prefix_reuse {
        Some(t) => json_str(t.as_str()),
        None => Json::Null,
    };
    assert(reuse@ == jopt_str(opt_prefix_reuse_name(r.prefix_reuse)));
    let mut members: Vec<(String, Json)> = Vec::new();
    assert(members_view(members@) =~= Seq::empty());
    push_member(&mut members, "task_class", task);
    push_member(&mut members, "length", length);
    push_member(&mut members, "complexity", complexity);
    push_member(&mut members, "tools_required", json_opt_bool(r.tools_required));
    push_member(&mut members, "latency_mode", latency);
    push_member(&mut members, "prefix_reuse", reuse);
    push_member(&mut members, "prefix_tokens_est", json_opt_u32(r.prefix_tokens_est));
    push_member(&mut members, "tokens_in_est", json_opt_u32(r.tokens_in_est));
    push_member(&mut members, "tokens_out_est", json_opt_u32(r.tokens_out_est));
    proof {
        match signals_json(*r) {
            JsonView::Object(expect) => assert(members_view(members@) =~= expect),
            _ => {},
        }
    }
    make_object(members)
}

fn candidate_to_json(c: &EnrichedCandidate) -> (j: Json)
    ensures
        j@ == candidate_json(*c),
{
    let p = &c.profile;
    let mut members: Vec<(String, Json)> = Vec::new();
    assert(members_view(members@) =~= Seq::empty());
    push_member(&mut members, "model_id", json_str(c.model_id.as_str()));
    let tier = match p.tier {
        Some(t) => json_str(t.as_str()),
        None => Json::Null,
    };
    push_member(&mut members, "tier", tier);
    push_member(&mut members, "tool_capable", Json::Bool(p.tool_capable));
    push_member(&mut members, "cache_eligible", Json::Bool(p.cache_eligible));
    push_member(&mut members, "is_current", Json::Bool(c.is_current));
    push_member(
        &mut members,
        "continuing_preserves_prompt_cache",
        Json::Bool(c.is_current && p.cache_eligible),
    );
    push_member(&mut members, "input_usd_per_mtok", Json::Fixed(p.input_usd_per_mtok as i128));
    push_member(&mut members, "output_usd_per_mtok", Json::Fixed(p.output_usd_per_mtok as i128));
    push_member(&mut members, "cost_band_in", json_opt_str(&p.cost_band_in));
    push_member(&mut members, "cost_band_out", json_opt_str(&p.cost_band_out));
    push_member(&mut members, "cache_read_usd_per_mtok", json_opt_fixed(p.cache_read_usd_per_mtok));
    push_member(&mut members, "cache_write_usd_per_mtok", json_opt_fixed(p.cache_write_usd_per_mtok));
    push_member(&mut members, "notes", json_opt_str(&p.notes));
    proof {
        match candidate_json(*c) {
            JsonView::Object(expect) => assert(members_view(members@) =~= expect),
            _ => {},
        }
    }
    let j = make_object(members);
    j
}

fn guidance_to_json() -> (j: Json)
    ensures
        j@ == guidance_json(),
{
    let mut consider: Vec<Json> = Vec::new();
    assert(elems_view(consider@) =~= Seq::empty());
    push_elem(&mut consider, json_str("capability fit for task_class / complexity"));
    push_elem(&mut consider, json_str("caching hypothesis from prefix_reuse"));
    push_elem(&mut consider, json_str("absolute $/MTok and cost bands"));
    push_elem(&mut consider, json_str("whether continuing on current_model preserves warm prompt cache"));
    push_elem(&mut consider, json_str("latency only when latency_mode is interactive"));
    let mut members: Vec<(String, Json)> = Vec::new();
    assert(members_view(members@) =~= Seq::empty());
    push_member(&mut members, "goal", json_str("Pick the next model for this session."));
    push_member(&mut members, "consider", make_array(consider));
    proof {
        match guidance_json() {
            JsonView::Object(expect) => {
                assert(members_view(members@)[1].1 matches JsonView::Array(a) && a =~= match expect[1].1 {
                    JsonView::Array(b) => b,
                    _ => Seq::empty(),
                });
                assert(members_view(members@) =~= expect);
            },
            _ => {},
        }
    }
    let j = make_object(members);
    j
}

pub fn build_state(request: &RouterRequest, candidates: &[EnrichedCandidate]) -> (j: Json)
    ensures
        j@ == state_json(*request, candidates@),
{
    let mut session: Vec<Json> = Vec::new();
    let n = request.session.len();
    let mut i: usize = 0;
    while i < n
        invariant
            n == request.session@.len(),
            i <= n,
            elems_view(session@) =~= Seq::new(i as nat, |k: int| message_json(request.session@[k])),
        decreases n - i,
    {
        push_elem(&mut session, message_to_json(&request.session[i]));
        i = i + 1;
    }
    let mut rows: Vec<Json> = Vec::new();
    let m = candidates.len();
    let mut j: usize = 0;
    while j < m
        invariant
            m == candidates@.len(),
            j <= m,
            elems_view(rows@) =~= Seq::new(j as nat, |k: int| candidate_json(candidates@[k])),
        decreases m - j,
    {
        push_elem(&mut rows, candidate_to_json(&candidates[j]));
        j = j + 1;
    }
    let mut members: Vec<(String, Json)> = Vec::new();
    assert(members_view(members@) =~= Seq::empty());
    push_member(&mut members, "task", json_str("llm_session_routing"));
    push_member(&mut members, "policy_ref", json_str("docs/decision-rules"));
    push_member(&mut members, "current_model", json_opt_str(&request.current_model));
    push_member(&mut members, "session", make_array(session));
    push_member(&mut members, "signals", signals_to_json(request));
    push_member(&mut members, "candidates", make_array(rows));
    push_member(&mut members, "routing_guidance", guidance_to_json());
    proof {
        match state_json(*request, candidates@) {
            JsonView::Object(expect) => assert(members_view(members@) =~= expect),
            _ => {},
        }
    }
    let state = make_object(members);
    state
}

/// `q` is a Choice question with these instructions and criteria texts.
pub open spec fn choice_question_is(
    q: Question,
    instructions: Seq<char>,
    criteria: Map<Seq<char>, Option<Seq<char>>>,
) -> bool {
    &&& q is Choice
    &&& q->Choice_0.instructions@ == instructions
    &&& criteria_text(q->Choice_0.criteria@) == criteria
}

/// `r` is the System One request packed for `request` and `cands`: the
/// routing state, the given model alias, and exactly the `route_to` and
/// `primary_reason` Choice questions.
pub open spec fn packed_request(
    r: SystemOneRequest,
    request: RouterRequest,
    cands: Seq<EnrichedCandidate>,
    model: Seq<char>,
) -> bool {
    &&& r.state@ == state_json(request, cands)
    &&& r.model@ == model
    &&& r.questions@.dom() == set![ROUTE_QUESTION_ID@, WHY_QUESTION_ID@]
    &&& choice_question_is(
        r.questions@[ROUTE_QUESTION_ID@],
        ROUTE_INSTRUCTIONS@,
        route_criteria_view(cands),
    )
    &&& choice_question_is(
        r.questions@[WHY_QUESTION_ID@],
        WHY_INSTRUCTIONS@,
        why_criteria_view(request.current_model is Some),
    )
}

/// Builds the System One payload for a routing decision.
pub fn pack_system_one_request(
    request: &RouterRequest,
    candidates: &[EnrichedCandidate],
    system_one_model: &str,
) -> (r: SystemOneRequest)
    ensures
        packed_request(r, *request, candidates@, system_one_model@),
{
    let state = build_state(request, candidates);
    let route_criteria = build_route_criteria(candidates);
    let why_criteria = why_reason_criteria(request.current_model.is_some());
    let mut questions: KeyedMap<Question> = KeyedMap::new();
    questions.insert(
        ROUTE_QUESTION_ID.to_owned(),
        Question::Choice(
            ChoiceQuestion { instructions: ROUTE_INSTRUCTIONS.to_owned(), criteria: route_criteria },
        ),
    );
    questions.insert(
        WHY_QUESTION_ID.to_owned(),
        Question::Choice(
            ChoiceQuestion { instructions: WHY_INSTRUCTIONS.to_owned(), criteria: why_criteria },
        ),
    );
    proof {
        reveal_strlit("route_to");
        reveal_strlit("primary_reason");
        assert(ROUTE_QUESTION_ID@.len() == 8);
        assert(WHY_QUESTION_ID@.len() == 14);
        assert(questions@.dom() =~= set![ROUTE_QUESTION_ID@, WHY_QUESTION_ID@]);
    }
    SystemOneRequest { state, model: system_one_model.to_owned(), questions }
}

} // verus!
