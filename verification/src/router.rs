//! Orchestrates enrich → pack → System One → map to a [`RouterDecision`].

use vstd::prelude::*;

use crate::catalog::{
    band_note_text, dollars2, enriched_rows, opt_str_view, string_views, tier_name,
    EnrichedCandidate, ModelCatalog, ModelCostProfile, ModelTier,
};
use crate::error::{RouterError, TypesafeError};
use crate::keyed_map::KeyedMap;
use crate::model_provider::opt_string_view;
use crate::pack::{
    pack_system_one_request, packed_request, why_criteria_view, DEFAULT_SYSTEM_ONE_MODEL, ROUTE_QUESTION_ID,
    WHY_QUESTION_ID,
};
use crate::typesafe::api::{answer_debug_text, Answer, SystemOneRequest, SystemOneResponse};
use crate::typesafe::TypesafeClient;
use crate::text::{decimal, div_round_half_even, fixed_text, join, join_strings, push_decimal, push_fixed, str_eq, views_of};
use crate::types::{
    decision_reason_name, AlternativeConsidered, CacheHypothesis, DecisionReason, PrefixReuse, RouterDecision,
    RouterRequest, TaskClass, WhyTradeoff,
};

verus! {

/// The decision reason a `primary_reason` answer names.
pub open spec fn reason_of(raw: Seq<char>) -> DecisionReason {
    if raw == "continue_current"@ {
        DecisionReason::ContinueCurrent
    } else if raw == "cost"@ {
        DecisionReason::Cost
    } else if raw == "cache"@ {
        DecisionReason::Cache
    } else if raw == "quality"@ {
        DecisionReason::Quality
    } else {
        DecisionReason::Unspecified
    }
}

pub fn map_reason(raw: &str) -> (r: DecisionReason)
    ensures
        r == reason_of(raw@),
{
    if str_eq(raw, "continue_current") {
        DecisionReason::ContinueCurrent
    } else if str_eq(raw, "cost") {
        DecisionReason::Cost
    } else if str_eq(raw, "cache") {
        DecisionReason::Cache
    } else if str_eq(raw, "quality") {
        DecisionReason::Quality
    } else {
        DecisionReason::Unspecified
    }
}

/// Every reason id the `primary_reason` Choice offers reads back as the
/// decision reason with that wire name, every named decision reason is
/// read from its own wire name, and any other answer reads as unspecified.
pub proof fn lemma_reason_ids_read_back(has_current: bool, id: Seq<char>, d: DecisionReason)
    ensures
        why_criteria_view(has_current).contains_key(id) ==> decision_reason_name(reason_of(id)) == id
            && reason_of(id) != DecisionReason::Unspecified,
        d != DecisionReason::Unspecified ==> reason_of(decision_reason_name(d)) == d,
        reason_of(id) == DecisionReason::Unspecified || decision_reason_name(reason_of(id)) == id,
{
    reveal_strlit("continue_current");
    reveal_strlit("cost");
    reveal_strlit("cache");
    reveal_strlit("quality");
    reveal_strlit("unspecified");
    assert("continue_current"@.len() == 16);
    assert("cost"@.len() == 4);
    assert("cache"@.len() == 5);
    assert("quality"@.len() == 7);
    assert("unspecified"@.len() == 11);
}

/// A tier's name, or `unknown-tier`.
pub open spec fn tier_or_unknown(t: Option<ModelTier>) -> Seq<char> {
    match t {
        Some(t) => tier_name(t),
        None => "unknown-tier"@,
    }
}

fn tier_or_unknown_str(t: Option<ModelTier>) -> (s: &'static str)
    ensures
        s@ == tier_or_unknown(t),
{
    match t {
        Some(t) => t.as_str(),
        None => "unknown-tier",
    }
}

/// Why a candidate other than the chosen one was not picked.
pub open spec fn reject_text(c: EnrichedCandidate, chosen: Seq<char>, tools_required: Option<bool>) -> Seq<char> {
    if tools_required == Some(true) && !c.profile.tool_capable {
        "rejected — not tool_capable"@
    } else {
        match c.profile.tier {
            Some(ModelTier::Small) => "rejected — may under-serve complexity / adherence vs chosen"@,
            Some(ModelTier::Frontier) => "rejected — quality margin small vs `"@ + chosen
                + "`; higher cost band (placeholder)"@,
            Some(ModelTier::Mid) => "rejected — `"@ + chosen
                + "` preferred on cost/capability balance (placeholder)"@,
            None => "rejected — not selected vs `"@ + chosen + "`"@,
        }
    }
}

pub fn reject_reason(c: &EnrichedCandidate, chosen: &str, tools_required: Option<bool>) -> (r: String)
    ensures
        r@ == reject_text(*c, chosen@, tools_required),
{
    if tools_required == Some(true) && !c.profile.tool_capable {
        return "rejected — not tool_capable".to_owned();
    }
    let mut s = String::new();
    match c.profile.tier {
        Some(ModelTier::Small) => {
            s.append("rejected — may under-serve complexity / adherence vs chosen");
        },
        Some(ModelTier::Frontier) => {
            s.append("rejected — quality margin small vs `");
            s.append(chosen);
            s.append("`; higher cost band (placeholder)");
        },
        Some(ModelTier::Mid) => {
            s.append("rejected — `");
            s.append(chosen);
            s.append("` preferred on cost/capability balance (placeholder)");
        },
        None => {
            s.append("rejected — not selected vs `");
            s.append(chosen);
            s.append("`");
        },
    }
    assert(s@ =~= reject_text(*c, chosen@, tools_required));
    s
}

/// The alternatives text of a candidate: `id (tier)` and why it lost.
pub open spec fn alternative_label(c: EnrichedCandidate) -> Seq<char> {
    c.model_id@ + " ("@ + tier_or_unknown(c.profile.tier) + ")"@
}

/// Alternatives considered: every candidate whose id is not the chosen
/// one, in candidate order, as (label, rejection reason).
pub open spec fn alternative_rows(cands: Seq<EnrichedCandidate>, chosen: Seq<char>, tools_required: Option<bool>) -> Seq<(Seq<char>, Seq<char>)>
    decreases cands.len(),
{
    if cands.len() == 0 {
        Seq::empty()
    } else {
        let rest = alternative_rows(cands.drop_last(), chosen, tools_required);
        let c = cands.last();
        if c.model_id@ != chosen {
            rest.push((alternative_label(c), reject_text(c, chosen, tools_required)))
        } else {
            rest
        }
    }
}

pub open spec fn alternatives_view(v: Seq<AlternativeConsidered>) -> Seq<(Seq<char>, Seq<char>)> {
    Seq::new(v.len(), |i: int| (v[i].model_or_tier@, v[i].why_rejected@))
}

pub fn build_alternatives(
    candidates: &[EnrichedCandidate],
    chosen: &str,
    tools_required: Option<bool>,
) -> (r: Vec<AlternativeConsidered>)
    ensures
        alternatives_view(r@) == alternative_rows(candidates@, chosen@, tools_required),
{
    let mut out: Vec<AlternativeConsidered> = Vec::new();
    let n = candidates.len();
    let mut i: usize = 0;
    proof {
        assert(alternatives_view(out@) =~= alternative_rows(candidates@.take(0), chosen@, tools_required));
    }
    while i < n
        invariant
            n == candidates@.len(),
            i <= n,
            alternatives_view(out@) == alternative_rows(candidates@.take(i as int), chosen@, tools_required),
        decreases n - i,
    {
        let c = &candidates[i];
        let ghost before = out@;
        if !str_eq(c.model_id.as_str(), chosen) {
            let mut label = String::new();
            label.append(c.model_id.as_str());
            label.append(" (");
            label.append(tier_or_unknown_str(c.profile.tier));
            label.append(")");
            let why = reject_reason(c, chosen, tools_required);
            proof {
                assert(label@ =~= alternative_label(*c));
            }
            out.push(AlternativeConsidered { model_or_tier: label, why_rejected: why });
            proof {
                assert(alternatives_view(out@) =~= alternatives_view(before).push(
                    (alternative_label(*c), reject_text(*c, chosen@, tools_required)),
                ));
            }
        }
        proof {
            assert(candidates@.take(i as int + 1).drop_last() =~= candidates@.take(i as int));
        }
        i = i + 1;
    }
    proof {
        assert(candidates@.take(n as int) =~= candidates@);
    }
    out
}

/// The effective prefix-reuse strength: `none` when not supplied.
pub open spec fn strength_of(request: RouterRequest) -> PrefixReuse {
    match request.prefix_reuse {
        Some(p) => p,
        None => PrefixReuse::NoReuse,
    }
}

/// The pieces of the cache-hypothesis rationale, in order.
pub open spec fn cache_parts(request: RouterRequest, chosen_cache_eligible: Option<bool>) -> Seq<Seq<char>> {
    seq![
        match strength_of(request) {
            PrefixReuse::Strong => "shared/stable system or tool preamble expected"@,
            PrefixReuse::Weak => "partial or unstable prefix reuse"@,
            PrefixReuse::NoReuse => "unique / one-shot prompt; no shared prefix called out"@,
        },
    ] + (match request.prefix_tokens_est {
        Some(n) => seq!["prefix_tokens_est≈"@ + decimal(n as nat)],
        None => Seq::empty(),
    }) + (match request.current_model {
        Some(cur) => seq!["current_model=`"@ + cur@ + "`"@],
        None => Seq::empty(),
    }) + (match chosen_cache_eligible {
        Some(true) => seq!["chosen model is cache_eligible"@],
        Some(false) => seq!["chosen model not cache_eligible"@],
        None => Seq::empty(),
    })
}

pub open spec fn cache_rationale(request: RouterRequest, chosen_cache_eligible: Option<bool>) -> Seq<char> {
    join(cache_parts(request, chosen_cache_eligible), "; "@)
}

pub fn build_cache_hypothesis(request: &RouterRequest, chosen_cache_eligible: Option<bool>) -> (h: CacheHypothesis)
    ensures
        h.strength == strength_of(*request),
        h.rationale@ == cache_rationale(*request, chosen_cache_eligible),
{
    let strength = match request.prefix_reuse {
        Some(p) => p,
        None => PrefixReuse::NoReuse,
    };
    let mut parts: Vec<String> = Vec::new();
    match strength {
        PrefixReuse::Strong => parts.push("shared/stable system or tool preamble expected".to_owned()),
        PrefixReuse::Weak => parts.push("partial or unstable prefix reuse".to_owned()),
        PrefixReuse::NoReuse => parts.push("unique / one-shot prompt; no shared prefix called out".to_owned()),
    }
    let ghost mut expect = seq![parts@[0]@];
    if let Some(n) = request.prefix_tokens_est {
        let mut t = String::new();
        t.append("prefix_tokens_est≈");
        push_decimal(&mut t, n as u128);
        parts.push(t);
        proof {
            expect = expect.push("prefix_tokens_est≈"@ + decimal(n as nat));
        }
    }
    if let Some(cur) = &request.current_model {
        let mut t = String::new();
        t.append("current_model=`");
        t.append(cur.as_str());
        t.append("`");
        parts.push(t);
        proof {
            expect = expect.push("current_model=`"@ + cur@ + "`"@);
        }
    }
    match chosen_cache_eligible {
        Some(true) => {
            parts.push("chosen model is cache_eligible".to_owned());
            proof {
                expect = expect.push("chosen model is cache_eligible"@);
            }
        },
        Some(false) => {
            parts.push("chosen model not cache_eligible".to_owned());
            proof {
                expect = expect.push("chosen model not cache_eligible"@);
            }
        },
        None => {},
    }
    proof {
        assert(views_of(parts@) =~= expect);
        assert(expect =~= cache_parts(*request, chosen_cache_eligible));
    }
    CacheHypothesis { strength, rationale: join_strings(&parts, "; ") }
}

/// `2^k`.
pub open spec fn pow2_nat(k: nat) -> nat
    decreases k,
{
    if k == 0 { 1 } else { 2 * pow2_nat((k - 1) as nat) }
}

/// The least shift `s`, from `from` up to 64, with `n · 2^s >= 1000 · 2^52`:
/// scaled by `2^s`, `n / 1000` has 53 binary digits before the point, the
/// precision of a double.
pub open spec fn double_shift(n: nat, from: nat) -> nat
    decreases 64 - from,
{
    if from >= 64 || n * pow2_nat(from) >= 1000 * pow2_nat(52) {
        from
    } else {
        double_shift(n, from + 1)
    }
}

/// How far the double nearest `n / 1000` lies above it, in units of
/// `2^-s / 1000` (negative below, zero when exact): the scaled value
/// rounded to a whole mantissa, ties to even, against the scaled value.
pub open spec fn thousandths_double_excess(n: nat) -> int {
    let big = n * pow2_nat(double_shift(n, 0));
    div_round_half_even(big, 1000) * 1000 - big
}

/// `n / 1000` in tenths, as one-digit formatting of the double nearest
/// `n / 1000` gives it: to the nearest tenth, and a decimal tie goes the
/// way the double lies (to the even tenth when the double is the tie).
pub open spec fn token_tenths(n: nat) -> nat {
    let q = n / 100;
    let rest = n % 100;
    if rest < 50 {
        q
    } else if rest > 50 {
        q + 1
    } else if thousandths_double_excess(n) > 0 {
        q + 1
    } else if thousandths_double_excess(n) < 0 {
        q
    } else if q % 2 == 0 {
        q
    } else {
        q + 1
    }
}

/// A token estimate: the plain count below 100, else thousands with one
/// fraction digit and a `K`.
pub open spec fn token_est_text(n: nat) -> Seq<char> {
    if n < 100 {
        decimal(n)
    } else {
        fixed_text(token_tenths(n), 1, 1) + "K"@
    }
}

proof fn lemma_pow2_52()
    ensures
        pow2_nat(52) == 4_503_599_627_370_496,
{
    reveal_with_fuel(pow2_nat, 53);
}

/// `n / 1000` in tenths, rounded as the double nearest it formats.
pub fn token_tenths_of(n: u32) -> (t: u64)
    ensures
        t == token_tenths(n as nat),
{
    let q = (n / 100) as u64;
    let rest = n % 100;
    if rest < 50 {
        return q;
    } else if rest > 50 {
        return q + 1;
    }
    let limit: u128 = 4_503_599_627_370_496_000;
    proof {
        lemma_pow2_52();
        assert(pow2_nat(0) == 1);
        assert(n * pow2_nat(0) == n);
    }
    let mut big: u128 = n as u128;
    let mut s: u32 = 0;
    while s < 64 && big < limit
        invariant
            s <= 64,
            limit == 1000 * pow2_nat(52),
            limit == 4_503_599_627_370_496_000,
            big == n * pow2_nat(s as nat),
            big < 2 * limit,
            double_shift(n as nat, 0) == double_shift(n as nat, s as nat),
        decreases 64 - s,
    {
        proof {
            let p = pow2_nat(s as nat);
            assert(pow2_nat((s + 1) as nat) == 2 * p);
            assert(n * (2 * p) == 2 * (n * p)) by (nonlinear_arith);
        }
        big = big * 2;
        s = s + 1;
    }
    proof {
        assert(double_shift(n as nat, s as nat) == s as nat);
    }
    let q2 = big / 1000;
    let r2 = big % 1000;
    let m: u128 = if 2 * r2 > 1000 || (2 * r2 == 1000 && q2 % 2 == 1) { q2 + 1 } else { q2 };
    proof {
        assert(m == div_round_half_even(big as nat, 1000));
    }
    if m * 1000 > big {
        q + 1
    } else if m * 1000 < big {
        q
    } else if q % 2 == 0 {
        q
    } else {
        q + 1
    }
}

pub fn push_token_est(s: &mut String, n: u32)
    ensures
        final(s)@ == old(s)@ + token_est_text(n as nat),
{
    if n < 100 {
        push_decimal(s, n as u128);
    } else {
        let t = token_tenths_of(n);
        push_fixed(s, t, 1, 1);
        s.append("K");
        proof {
            assert(s@ =~= old(s)@ + token_est_text(n as nat));
        }
    }
}

pub fn fmt_token_est(n: u32) -> (r: String)
    ensures
        r@ == token_est_text(n as nat),
{
    let mut s = String::new();
    push_token_est(&mut s, n);
    assert(s@ =~= token_est_text(n as nat));
    s
}

pub open spec fn opt_u32_or(o: Option<u32>, d: u32) -> u32 {
    match o {
        Some(n) => n,
        None => d,
    }
}

/// The rough cost note: token estimates (1500 in / 400 out by default),
/// the chosen tier and price band, the cache-read price when known, and
/// what the cache hypothesis implies.
pub open spec fn cost_note_text(request: RouterRequest, profile: Option<ModelCostProfile>, strength: PrefixReuse) -> Seq<char> {
    let tin = opt_u32_or(request.tokens_in_est, 1500);
    let tout = opt_u32_or(request.tokens_out_est, 400);
    let tier = match profile {
        Some(p) => tier_or_unknown(p.tier),
        None => "unknown-tier"@,
    };
    let band = match profile {
        Some(p) => band_note_text(p),
        None => "placeholder band"@,
    };
    let cache_rate = match profile {
        Some(p) => match p.cache_read_usd_per_mtok {
            Some(r) => "; cache_read="@ + dollars2(r as nat) + "/MTok"@,
            None => Seq::empty(),
        },
        None => Seq::empty(),
    };
    let cache_bit = match strength {
        PrefixReuse::Strong => "expect prefix cache after warm-up"@,
        PrefixReuse::Weak => "weak cache"@,
        PrefixReuse::NoReuse => "no cache assumed"@,
    };
    "~"@ + token_est_text(tin as nat) + " in / "@ + token_est_text(tout as nat) + " out @ "@ + tier + " ("@
        + band + cache_rate + "); "@ + cache_bit
}

pub fn build_cost_note(request: &RouterRequest, profile: Option<&ModelCostProfile>, cache: &CacheHypothesis) -> (r: String)
    ensures
        r@ == cost_note_text(*request, match profile {
            Some(p) => Some(*p),
            None => None,
        }, cache.strength),
{
    let tin = match request.tokens_in_est {
        Some(n) => n,
        None => 1500,
    };
    let tout = match request.tokens_out_est {
        Some(n) => n,
        None => 400,
    };
    let mut s = String::new();
    s.append("~");
    push_token_est(&mut s, tin);
    s.append(" in / ");
    push_token_est(&mut s, tout);
    s.append(" out @ ");
    match profile {
        Some(p) => s.append(tier_or_unknown_str(p.tier)),
        None => s.append("unknown-tier"),
    }
    s.append(" (");
    match profile {
        Some(p) => {
            let band = p.band_note();
            s.append(band.as_str());
        },
        None => s.append("placeholder band"),
    }
    match profile {
        Some(p) => match p.cache_read_usd_per_mtok {
            Some(rate) => {
                s.append("; cache_read=");
                s.append("$");
                push_fixed(&mut s, rate, 10000, 2);
                s.append("/MTok");
            },
            None => {},
        },
        None => {},
    }
    s.append("); ");
    match cache.strength {
        PrefixReuse::Strong => s.append("expect prefix cache after warm-up"),
        PrefixReuse::Weak => s.append("weak cache"),
        PrefixReuse::NoReuse => s.append("no cache assumed"),
    }
    proof {
        let pv = match profile {
            Some(p) => Some(*p),
            None => None,
        };
        assert(s@ =~= cost_note_text(*request, pv, cache.strength));
    }
    s
}

/// An open risk for deep reasoning, tool use or code on a cheaper tier.
pub open spec fn open_risk_text(task: Option<TaskClass>, tier: Option<ModelTier>) -> Option<Seq<char>> {
    match (task, tier) {
        (Some(TaskClass::LongReason), Some(ModelTier::Mid)) => Some("may under-develop failure modes / deep reasoning"@),
        (Some(TaskClass::LongReason), Some(ModelTier::Small)) => Some("may under-develop failure modes / deep reasoning"@),
        (Some(TaskClass::ToolUse), Some(ModelTier::Small)) => Some("tool schema adherence risk on small tier"@),
        (Some(TaskClass::Code), Some(ModelTier::Small)) => Some("may miss edge cases on non-trivial code"@),
        _ => None,
    }
}

pub fn build_open_risk(request: &RouterRequest, tier: Option<ModelTier>) -> (r: Option<String>)
    ensures
        match r {
            Some(s) => open_risk_text(request.task_class, tier) == Some(s@),
            None => open_risk_text(request.task_class, tier) is None,
        },
{
    match (request.task_class, tier) {
        (Some(TaskClass::LongReason), Some(ModelTier::Mid)) | (
            Some(TaskClass::LongReason),
            Some(ModelTier::Small),
        ) => Some("may under-develop failure modes / deep reasoning".to_owned()),
        (Some(TaskClass::ToolUse), Some(ModelTier::Small)) => Some(
            "tool schema adherence risk on small tier".to_owned(),
        ),
        (Some(TaskClass::Code), Some(ModelTier::Small)) => Some(
            "may miss edge cases on non-trivial code".to_owned(),
        ),
        _ => None,
    }
}

pub open spec fn axis_text(primary: DecisionReason) -> Seq<char> {
    match primary {
        DecisionReason::ContinueCurrent => "preserve cache / continuity"@,
        DecisionReason::Cost => "cost"@,
        DecisionReason::Cache => "cache economics"@,
        DecisionReason::Quality => "quality"@,
        DecisionReason::Unspecified => "unspecified tradeoff"@,
    }
}

pub open spec fn tier_bit_text(tier: Option<Seq<char>>) -> Seq<char> {
    match tier {
        Some(t) => " ["@ + t + "]"@,
        None => Seq::empty(),
    }
}

/// Whether the pick continues, switches or selects a model.
pub open spec fn switched_text(chosen: Seq<char>, tier: Option<Seq<char>>, current: Option<Seq<char>>) -> Seq<char> {
    match current {
        Some(cur) => if cur == chosen {
            "continue on `"@ + chosen + "`"@ + tier_bit_text(tier)
        } else {
            "switch `"@ + cur + "` → `"@ + chosen + "`"@ + tier_bit_text(tier)
        },
        None => "select `"@ + chosen + "`"@ + tier_bit_text(tier),
    }
}

pub open spec fn confidence_text(confidence: Option<u32>) -> Seq<char> {
    match confidence {
        Some(c) => " (confidence="@ + fixed_text(c as nat, 10000, 2) + ")"@,
        None => Seq::empty(),
    }
}

/// The one-line summary: continue / switch / select with the tier, the
/// primary axis, and the confidence with two fraction digits.
pub open spec fn summary_text(
    chosen: Seq<char>,
    tier: Option<Seq<char>>,
    current: Option<Seq<char>>,
    primary: DecisionReason,
    confidence: Option<u32>,
) -> Seq<char> {
    switched_text(chosen, tier, current) + "; primary axis: "@ + axis_text(primary) + confidence_text(confidence)
}

pub open spec fn opt_str_seq(o: Option<&str>) -> Option<Seq<char>> {
    match o {
        Some(t) => Some(t@),
        None => None,
    }
}

fn push_switched(s: &mut String, chosen: &str, tier: Option<&str>, current: Option<&str>)
    ensures
        final(s)@ == old(s)@ + switched_text(chosen@, opt_str_seq(tier), opt_str_seq(current)),
{
    let mut t = String::new();
    match current {
        Some(cur) => {
            if str_eq(cur, chosen) {
                t.append("continue on `");
                t.append(chosen);
                t.append("`");
            } else {
                t.append("switch `");
                t.append(cur);
                t.append("` → `");
                t.append(chosen);
                t.append("`");
            }
        },
        None => {
            t.append("select `");
            t.append(chosen);
            t.append("`");
        },
    }
    let ghost head = t@;
    if let Some(x) = tier {
        t.append(" [");
        t.append(x);
        t.append("]");
    }
    assert(t@ =~= head + tier_bit_text(opt_str_seq(tier)));
    s.append(t.as_str());
    assert(s@ =~= old(s)@ + switched_text(chosen@, opt_str_seq(tier), opt_str_seq(current)));
}

fn axis_str(primary: DecisionReason) -> (s: &'static str)
    ensures
        s@ == axis_text(primary),
{
    match primary {
        DecisionReason::ContinueCurrent => "preserve cache / continuity",
        DecisionReason::Cost => "cost",
        DecisionReason::Cache => "cache economics",
        DecisionReason::Quality => "quality",
        DecisionReason::Unspecified => "unspecified tradeoff",
    }
}

pub fn build_summary(
    chosen: &str,
    tier: Option<&str>,
    current: Option<&str>,
    primary: DecisionReason,
    confidence: Option<u32>,
) -> (r: String)
    ensures
        r@ == summary_text(chosen@, opt_str_seq(tier), opt_str_seq(current), primary, confidence),
{
    let mut s = String::new();
    push_switched(&mut s, chosen, tier, current);
    s.append("; primary axis: ");
    s.append(axis_str(primary));
    let ghost before = s@;
    if let Some(c) = confidence {
        s.append(" (confidence=");
        push_fixed(&mut s, c as u64, 10000, 2);
        s.append(")");
    }
    assert(s@ =~= before + confidence_text(confidence));
    assert(s@ =~= summary_text(chosen@, opt_str_seq(tier), opt_str_seq(current), primary, confidence));
    s
}

/// Index of the first candidate row with id `id`.
pub open spec fn first_row(cands: Seq<EnrichedCandidate>, id: Seq<char>, i: int) -> bool {
    &&& 0 <= i < cands.len()
    &&& cands[i].model_id@ == id
    &&& forall|j: int| 0 <= j < i ==> (#[trigger] cands[j]).model_id@ != id
}

/// The profile of the first candidate row with id `id`, if any.
pub open spec fn chosen_profile_of(cands: Seq<EnrichedCandidate>, id: Seq<char>) -> Option<ModelCostProfile> {
    if exists|i: int| first_row(cands, id, i) {
        Some(cands[choose|i: int| first_row(cands, id, i)].profile)
    } else {
        None
    }
}

pub open spec fn profile_tier(p: Option<ModelCostProfile>) -> Option<ModelTier> {
    match p {
        Some(p) => p.tier,
        None => None,
    }
}

pub open spec fn profile_cache_eligible(p: Option<ModelCostProfile>) -> Option<bool> {
    match p {
        Some(p) => Some(p.cache_eligible),
        None => None,
    }
}

pub open spec fn tier_text_of(p: Option<ModelCostProfile>) -> Option<Seq<char>> {
    match profile_tier(p) {
        Some(t) => Some(tier_name(t)),
        None => None,
    }
}

/// `d` is the decision for picking `chosen` (with Choice confidence `conf`
/// and probabilities `probs`) and primary reason `primary`, given the
/// request and the candidate rows.
pub open spec fn decision_is(
    d: RouterDecision,
    request: RouterRequest,
    cands: Seq<EnrichedCandidate>,
    chosen: Seq<char>,
    conf: u32,
    probs: Map<Seq<char>, u32>,
    primary: DecisionReason,
) -> bool {
    let prof = chosen_profile_of(cands, chosen);
    let strength = strength_of(request);
    &&& d.chosen_model@ == chosen
    &&& d.model@ == chosen
    &&& opt_string_view(d.chosen_tier) == tier_text_of(prof)
    &&& d.primary_reason == primary
    &&& alternatives_view(d.alternatives_considered@) == alternative_rows(cands, chosen, request.tools_required)
    &&& d.cache_hypothesis.strength == strength
    &&& d.cache_hypothesis.rationale@ == cache_rationale(request, profile_cache_eligible(prof))
    &&& d.rough_cost_note@ == cost_note_text(request, prof, strength)
    &&& d.confidence == Some(conf)
    &&& opt_string_view(d.open_risk) == open_risk_text(request.task_class, profile_tier(prof))
    &&& d.why.primary == primary
    &&& d.why.summary@ == summary_text(chosen, tier_text_of(prof), opt_string_view(request.current_model), primary, Some(conf))
    &&& d.why.confidence == Some(conf)
    &&& d.why.probabilities is Some
    &&& d.why.probabilities.unwrap()@ == probs
}

/// The primary reason the response's `primary_reason` answer names
/// (unspecified when absent or not a Choice).
pub open spec fn primary_of(answers: Map<Seq<char>, Answer>) -> DecisionReason {
    if answers.contains_key(WHY_QUESTION_ID@) && answers[WHY_QUESTION_ID@] is Choice {
        reason_of(answers[WHY_QUESTION_ID@]->Choice_0.choice@)
    } else {
        DecisionReason::Unspecified
    }
}

fn find_profile<'a>(candidates: &'a [EnrichedCandidate], id: &str) -> (r: Option<&'a ModelCostProfile>)
    ensures
        match r {
            Some(p) => chosen_profile_of(candidates@, id@) == Some(*p),
            None => chosen_profile_of(candidates@, id@) is None,
        },
{
    let n = candidates.len();
    let mut i: usize = 0;
    while i < n
        invariant
            n == candidates@.len(),
            i <= n,
            forall|j: int| 0 <= j < i ==> (#[trigger] candidates@[j]).model_id@ != id@,
        decreases n - i,
    {
        if str_eq(candidates[i].model_id.as_str(), id) {
            proof {
                assert(first_row(candidates@, id@, i as int));
                let c = choose|c: int| first_row(candidates@, id@, c);
                if c < i {
                    assert(candidates@[c].model_id@ != id@);
                } else if c > i {
                    assert(candidates@[i as int].model_id@ != id@);
                }
            }
            return Some(&candidates[i].profile);
        }
        i = i + 1;
    }
    proof {
        if exists|c: int| first_row(candidates@, id@, c) {
            let c = choose|c: int| first_row(candidates@, id@, c);
            assert(candidates@[c].model_id@ != id@);
        }
    }
    None
}

fn allowlist_contains(allowlist: &Vec<String>, id: &str) -> (b: bool)
    ensures
        b == string_views(allowlist@).contains(id@),
{
    let n = allowlist.len();
    let mut i: usize = 0;
    while i < n
        invariant
            n == allowlist@.len(),
            i <= n,
            forall|j: int| 0 <= j < i ==> (#[trigger] allowlist@[j])@ != id@,
        decreases n - i,
    {
        if str_eq(allowlist[i].as_str(), id) {
            proof {
                assert(string_views(allowlist@)[i as int] == id@);
            }
            return true;
        }
        i = i + 1;
    }
    proof {
        if string_views(allowlist@).contains(id@) {
            let j = choose|j: int| 0 <= j < string_views(allowlist@).len() && string_views(allowlist@)[j] == id@;
            assert(allowlist@[j]@ == id@);
        }
    }
    false
}

/// `r` is what reading the answers gives: an error for a missing or
/// non-Choice `route_to` answer or for a choice outside the allowlist, else
/// the decision for the chosen model with the answer's confidence and
/// probabilities and the primary reason the `primary_reason` answer names.
pub open spec fn decision_read(
    request: RouterRequest,
    candidates: Seq<EnrichedCandidate>,
    answers: Map<Seq<char>, Answer>,
    r: Result<RouterDecision, RouterError>,
) -> bool {
    &&& !answers.contains_key(ROUTE_QUESTION_ID@) ==> (r matches Err(RouterError::InvalidDecision(m)) && m@
        == "missing route_to answer"@)
    &&& answers.contains_key(ROUTE_QUESTION_ID@) && !(answers[ROUTE_QUESTION_ID@] is Choice) ==> (r matches Err(
        RouterError::InvalidDecision(m),
    ) && exists|t: Seq<char>| m@ == "route_to expected Choice answer, got "@ + t)
    &&& answers.contains_key(ROUTE_QUESTION_ID@) && answers[ROUTE_QUESTION_ID@] is Choice ==> ({
        let c = answers[ROUTE_QUESTION_ID@]->Choice_0;
        if string_views(request.allowlist@).contains(c.choice@) {
            r matches Ok(d) && decision_is(d, request, candidates, c.choice@, c.confidence, c.probabilities@, primary_of(answers))
        } else {
            r matches Err(RouterError::InvalidDecision(m)) && m@ == "TypeSafe chose `"@ + c.choice@
                + "` which is not in the allowlist"@
        }
    })
}

/// Maps the System One answers to a routing decision.
///
/// The `route_to` answer must be a Choice naming an allowlisted model; the
/// `primary_reason` answer, when it is a Choice, names the primary axis.
pub fn decision_from_response(
    request: &RouterRequest,
    candidates: &[EnrichedCandidate],
    response: &SystemOneResponse,
) -> (r: Result<RouterDecision, RouterError>)
    ensures
        decision_read(*request, candidates@, response.answers@, r),
{
    let route = match response.answers.get(ROUTE_QUESTION_ID) {
        Some(a) => a,
        None => {
            return Err(RouterError::InvalidDecision("missing route_to answer".to_owned()));
        },
    };
    let choice = match route {
        Answer::Choice(c) => c,
        other => {
            let mut m = String::new();
            m.append("route_to expected Choice answer, got ");
            let shown = answer_debug_text(other);
            m.append(shown.as_str());
            return Err(RouterError::InvalidDecision(m));
        },
    };
    if !allowlist_contains(&request.allowlist, choice.choice.as_str()) {
        let mut m = String::new();
        m.append("TypeSafe chose `");
        m.append(choice.choice.as_str());
        m.append("` which is not in the allowlist");
        return Err(RouterError::InvalidDecision(m));
    }
    let chosen_model = choice.choice.clone();
    let confidence = choice.confidence;
    let probabilities = choice.probabilities.clone();
    proof {
        assert(probabilities@ =~= choice.probabilities@);
    }
    let primary_reason = match response.answers.get(WHY_QUESTION_ID) {
        Some(Answer::Choice(c)) => map_reason(c.choice.as_str()),
        _ => DecisionReason::Unspecified,
    };
    let chosen_profile = find_profile(candidates, chosen_model.as_str());
    let chosen_tier: Option<String> = match chosen_profile {
        Some(p) => match p.tier {
            Some(t) => Some(t.as_str().to_owned()),
            None => None,
        },
        None => None,
    };
    let alternatives_considered = build_alternatives(candidates, chosen_model.as_str(), request.tools_required);
    let cache_hypothesis = build_cache_hypothesis(request, match chosen_profile {
        Some(p) => Some(p.cache_eligible),
        None => None,
    });
    let rough_cost_note = build_cost_note(request, chosen_profile, &cache_hypothesis);
    let open_risk = build_open_risk(request, match chosen_profile {
        Some(p) => p.tier,
        None => None,
    });
    let summary = build_summary(
        chosen_model.as_str(),
        match &chosen_tier {
            Some(t) => Some(t.as_str()),
            None => None,
        },
        match &request.current_model {
            Some(c) => Some(c.as_str()),
            None => None,
        },
        primary_reason,
        Some(confidence),
    );
    let model = chosen_model.clone();
    Ok(RouterDecision {
        chosen_model,
        chosen_tier,
        primary_reason,
        alternatives_considered,
        cache_hypothesis,
        rough_cost_note,
        confidence: Some(confidence),
        open_risk,
        model,
        why: WhyTradeoff {
            primary: primary_reason,
            summary,
            confidence: Some(confidence),
            probabilities: Some(probabilities),
        },
    })
}

/// The router: a cost/cache catalog, a System One client and the System
/// One model alias to ask.
pub struct Router<'a, C: TypesafeClient> {
    pub catalog: &'a ModelCatalog,
    pub client: &'a C,
    pub system_one_model: String,
}

/// `d` is a routing decision for `request`: it names an allowlisted model
/// and is the decision for picking it among the enriched candidate rows.
pub open spec fn routed(catalog: ModelCatalog, request: RouterRequest, d: RouterDecision) -> bool {
    &&& string_views(request.allowlist@).contains(d.chosen_model@)
    &&& exists|rows: Seq<EnrichedCandidate>, conf: u32, probs: Map<Seq<char>, u32>, primary: DecisionReason|
        enriched_rows(catalog.models@, request.allowlist@, opt_string_view(request.current_model), rows)
            && decision_is(d, request, rows, d.chosen_model@, conf, probs, primary)
}

/// The allowlist is non-empty, names the current model (if any), and
/// every allowlisted id is in the catalog.
pub open spec fn request_enrichable(catalog: ModelCatalog, request: RouterRequest) -> bool {
    &&& request.allowlist@.len() > 0
    &&& (request.current_model is Some ==> string_views(request.allowlist@).contains(request.current_model.unwrap()@))
    &&& forall|i: int| 0 <= i < request.allowlist@.len() ==> catalog.models@.contains_key(#[trigger] request.allowlist@[i]@)
}

/// `r` is what the client's reply to the routing request gives: the
/// request was packed from the enriched rows for the System One `model`,
/// and the client's error, or the decision read from its answers, is the
/// result.
pub open spec fn reply_routed<C: TypesafeClient>(
    catalog: ModelCatalog,
    client: C,
    model: Seq<char>,
    request: RouterRequest,
    r: Result<RouterDecision, RouterError>,
) -> bool {
    exists|rows: Seq<EnrichedCandidate>, req: SystemOneRequest, res: Result<SystemOneResponse, TypesafeError>|
        #![trigger enriched_rows(catalog.models@, request.allowlist@, opt_string_view(request.current_model), rows), client.replies(req, res)]
    {
        &&& enriched_rows(catalog.models@, request.allowlist@, opt_string_view(request.current_model), rows)
        &&& packed_request(req, request, rows, model)
        &&& client.replies(req, res)
        &&& match res {
            Err(e) => r == Err::<RouterDecision, RouterError>(RouterError::Typesafe(e)),
            Ok(resp) => decision_read(request, rows, resp.answers@, r),
        }
    }
}

/// What routing `request` gives: the enrichment error for a request the
/// catalog cannot enrich, else what the client's reply gives; a decision
/// is always a routing decision for the request.
pub open spec fn route_outcome<C: TypesafeClient>(
    catalog: ModelCatalog,
    client: C,
    model: Seq<char>,
    request: RouterRequest,
    r: Result<RouterDecision, RouterError>,
) -> bool {
    &&& (request.allowlist@.len() == 0 ==> r matches Err(RouterError::EmptyAllowlist))
    &&& (request.allowlist@.len() > 0 && request.current_model is Some && !string_views(request.allowlist@).contains(
        request.current_model.unwrap()@,
    ) ==> (r matches Err(RouterError::CurrentNotAllowlisted(c)) && c@ == request.current_model.unwrap()@))
    &&& (request.allowlist@.len() > 0 && (request.current_model is Some ==> string_views(request.allowlist@).contains(
        request.current_model.unwrap()@,
    )) && !request_enrichable(catalog, request) ==> (r matches Err(RouterError::MissingCatalogEntry(id))
        && exists|i: int| crate::catalog::first_missing(catalog.models@, request.allowlist@, i) && id@ == request.allowlist@[i]@))
    &&& request_enrichable(catalog, request) ==> reply_routed(catalog, client, model, request, r)
    &&& (r matches Ok(d) ==> routed(catalog, request, d))
}

impl<'a, C: TypesafeClient> Router<'a, C> {
    pub fn new(catalog: &'a ModelCatalog, client: &'a C) -> (r: Self)
        ensures
            r.catalog == catalog,
            r.client == client,
            r.system_one_model@ == DEFAULT_SYSTEM_ONE_MODEL@,
    {
        Router { catalog, client, system_one_model: DEFAULT_SYSTEM_ONE_MODEL.to_owned() }
    }

    pub fn with_system_one_model(self, model: &str) -> (r: Self)
        ensures
            r.catalog == self.catalog,
            r.client == self.client,
            r.system_one_model@ == model@,
    {
        Router { catalog: self.catalog, client: self.client, system_one_model: model.to_owned() }
    }

    /// Decides which allowlisted model should handle the next turn.
    ///
    /// Enrichment failures are reported as the catalog reports them; with an
    /// enrichable request, the packed routing request goes to the client and
    /// its reply is read into the decision.
    pub fn route(&self, request: &RouterRequest) -> (r: Result<RouterDecision, RouterError>)
        ensures
            route_outcome(*self.catalog, *self.client, self.system_one_model@, *request, r),
    {
        let current: Option<&str> = match &request.current_model {
            Some(c) => Some(c.as_str()),
            None => None,
        };
        proof {
            assert(opt_str_view(current) == opt_string_view(request.current_model));
        }
        let candidates = match self.catalog.enrich_allowlist(request.allowlist.as_slice(), current) {
            Ok(rows) => rows,
            Err(e) => {
                return Err(e);
            },
        };
        let packed = pack_system_one_request(request, candidates.as_slice(), self.system_one_model.as_str());
        let reply = self.client.system_one(&packed);
        let ghost res = reply;
        proof {
            assert(enriched_rows(self.catalog.models@, request.allowlist@, opt_string_view(request.current_model), candidates@));
            assert(self.client.replies(packed, res));
        }
        let response = match reply {
            Ok(resp) => resp,
            Err(e) => {
                return Err(RouterError::Typesafe(e));
            },
        };
        let r = decision_from_response(request, candidates.as_slice(), &response);
        proof {
            assert(enriched_rows(self.catalog.models@, request.allowlist@, opt_string_view(request.current_model), candidates@));
            if r is Ok {
                let d = r->Ok_0;
                let c = response.answers@[ROUTE_QUESTION_ID@]->Choice_0;
                assert(decision_is(d, *request, candidates@, d.chosen_model@, c.confidence, c.probabilities@, primary_of(response.answers@)));
            }
        }
        r
    }
}

} // verus!
