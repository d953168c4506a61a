//! Offline System One client: deterministic answers for Choice routing and
//! Score rubrics, without network or API keys.
//!
//! Routing picks by the packed state's signals (task class, prefix reuse,
//! tools) and candidate tiers, falling back to the current model and then to
//! the first option. Probabilities and confidences are millionths.

use vstd::prelude::*;

use super::api::{Answer, ChoiceAnswer, Question, ScoreAnswer, SystemOneRequest, SystemOneResponse, Usage};
use super::TypesafeClient;
use crate::catalog::{opt_str_view, tier_name, ModelTier};
use crate::error::TypesafeError;
use crate::json::{bool_of, member, member_bool, member_text, text_of, Json, JsonView};
use crate::keyed_map::KeyedMap;
use crate::model_provider::opt_string_view;
use crate::pack::{ROUTE_QUESTION_ID, WHY_QUESTION_ID};
use crate::score::{INSTRUCTION_FOLLOW_QUESTION_ID, QUALITY_QUESTION_ID, TASK_FIT_QUESTION_ID};
use crate::router::open_risk_text;
use crate::types::{task_class_name, TaskClass};
use crate::text::{contains_text, decimal, decimal_string, lemma_decimal_injective, str_eq, str_lt, views_of};

verus! {

/// Deterministic stub: heuristics from the packed state signals, else the
/// first option.
#[derive(Debug, Clone)]
pub struct StubTypesafeClient {
    /// Forced model id (must be one of the route Choice options).
    pub force_model: Option<String>,
    /// Forced primary reason id.
    pub force_reason: Option<String>,
}

impl StubTypesafeClient {
    pub fn new() -> (r: Self)
        ensures
            r.force_model is None,
            r.force_reason is None,
    {
        StubTypesafeClient { force_model: None, force_reason: None }
    }

    pub fn with_force(model: &str, reason: &str) -> (r: Self)
        ensures
            opt_string_view(r.force_model) == Some(model@),
            opt_string_view(r.force_reason) == Some(reason@),
    {
        StubTypesafeClient { force_model: Some(model.to_owned()), force_reason: Some(reason.to_owned()) }
    }
}

/// Member `key` of the state's `signals` object.
pub open spec fn signal(state: JsonView, key: Seq<char>) -> Option<JsonView> {
    match member(state, "signals"@) {
        Some(s) => member(s, key),
        None => None,
    }
}

/// The state's `current_model`, when it is a string.
pub open spec fn state_current(state: JsonView) -> Option<Seq<char>> {
    text_of(member(state, "current_model"@))
}

/// The tier a task class is best served by.
pub open spec fn preferred_tier(task: Option<Seq<char>>) -> Option<Seq<char>> {
    if task == Some("short-classify"@) {
        Some("T-small"@)
    } else if task == Some("code"@) || task == Some("creative"@) {
        Some("T-mid"@)
    } else if task == Some("long-reason"@) || task == Some("tool-use"@) {
        Some("T-frontier"@)
    } else {
        None
    }
}

/// Task classes that need deep reasoning or tools.
pub open spec fn deep_task(task: Option<Seq<char>>) -> bool {
    task == Some("long-reason"@) || task == Some("tool-use"@)
}

/// Task classes whose primary axis is quality.
pub open spec fn quality_task(task: Option<Seq<char>>) -> bool {
    task == Some("long-reason"@) || task == Some("tool-use"@) || task == Some("code"@) || task == Some("creative"@)
}

/// A candidate row names `opt`, is of `tier`, and is tool capable when
/// tools are required.
pub open spec fn row_fits(row: JsonView, opt: Seq<char>, tier: Seq<char>, tools: bool) -> bool {
    &&& text_of(member(row, "model_id"@)) == Some(opt)
    &&& text_of(member(row, "tier"@)) == Some(tier)
    &&& (tools ==> bool_of(member(row, "tool_capable"@)) == Some(true))
}

pub open spec fn option_fits(rows: Seq<JsonView>, opt: Seq<char>, tier: Seq<char>, tools: bool) -> bool {
    exists|j: int| 0 <= j < rows.len() && row_fits(#[trigger] rows[j], opt, tier, tools)
}

/// `i` is the first option with a fitting candidate row.
pub open spec fn first_fitting(rows: Seq<JsonView>, options: Seq<Seq<char>>, tier: Seq<char>, tools: bool, i: int) -> bool {
    &&& 0 <= i < options.len()
    &&& option_fits(rows, options[i], tier, tools)
    &&& forall|j: int| 0 <= j < i ==> !option_fits(rows, #[trigger] options[j], tier, tools)
}

/// The first option (in option order) with a candidate row of `tier`.
pub open spec fn tier_match(state: JsonView, options: Seq<Seq<char>>, tier: Seq<char>, tools: bool) -> Option<Seq<char>> {
    match member(state, "candidates"@) {
        Some(JsonView::Array(rows)) => if exists|i: int| first_fitting(rows, options, tier, tools, i) {
            Some(options[choose|i: int| first_fitting(rows, options, tier, tools, i)])
        } else {
            None
        },
        _ => None,
    }
}

/// The heuristic pick: keep a warm current model on strong prefix reuse
/// (unless the task needs depth), else the first option of the preferred
/// tier, else the current model, else the first option.
pub open spec fn heuristic_pick(state: JsonView, options: Seq<Seq<char>>, current: Option<Seq<char>>) -> Seq<char> {
    let task = text_of(signal(state, "task_class"@));
    let prefix = text_of(signal(state, "prefix_reuse"@));
    let tools = bool_of(signal(state, "tools_required"@)) == Some(true);
    let pref = preferred_tier(task);
    if prefix == Some("strong"@) && current is Some && options.contains(current.unwrap()) && !deep_task(task) {
        current.unwrap()
    } else if pref is Some && tier_match(state, options, pref.unwrap(), tools) is Some {
        tier_match(state, options, pref.unwrap(), tools).unwrap()
    } else if current is Some && options.contains(current.unwrap()) {
        current.unwrap()
    } else {
        options[0]
    }
}

/// The reason the stub gives for picking `chosen`.
pub open spec fn default_reason(state: JsonView, chosen: Seq<char>, current: Option<Seq<char>>) -> Seq<char> {
    if current == Some(chosen) {
        "continue_current"@
    } else if text_of(signal(state, "prefix_reuse"@)) == Some("strong"@) {
        "cache"@
    } else if quality_task(text_of(signal(state, "task_class"@))) {
        "quality"@
    } else {
        "cost"@
    }
}

/// `top` (millionths) on `pick`, the `rest` shared evenly (rounded down)
/// among the other options.
pub open spec fn spread(options: Seq<Seq<char>>, pick: Seq<char>, top: u32, rest: u32) -> Map<Seq<char>, u32> {
    let share = if options.len() <= 1 { 0 } else { (rest as nat / (options.len() - 1) as nat) as u32 };
    Map::new(|k: Seq<char>| options.contains(k), |k: Seq<char>| if k == pick { top } else { share })
}

/// `a` is the Choice answer `choice` with these probabilities and confidence.
pub open spec fn choice_answer_is(a: Answer, choice: Seq<char>, probs: Map<Seq<char>, u32>, conf: u32) -> bool {
    &&& a is Choice
    &&& a->Choice_0.choice@ == choice
    &&& a->Choice_0.probabilities@ == probs
    &&& a->Choice_0.confidence == conf
}

/// The route Choice options, in ascending id order.
pub open spec fn route_options(request: SystemOneRequest) -> Seq<Seq<char>> {
    request.questions@[ROUTE_QUESTION_ID@]->Choice_0.criteria.key_seq()
}

/// The model the stub routes to.
pub open spec fn stub_chosen(c: StubTypesafeClient, request: SystemOneRequest) -> Seq<char> {
    match c.force_model {
        Some(f) => f@,
        None => heuristic_pick(request.state@, route_options(request), state_current(request.state@)),
    }
}

/// The reason before it is checked against the `primary_reason` options.
pub open spec fn stub_raw_reason(c: StubTypesafeClient, request: SystemOneRequest) -> Seq<char> {
    match c.force_reason {
        Some(r) => r@,
        None => default_reason(request.state@, stub_chosen(c, request), state_current(request.state@)),
    }
}

/// The `primary_reason` Choice options, or just the raw reason when the
/// request has no such Choice.
pub open spec fn why_options(c: StubTypesafeClient, request: SystemOneRequest) -> Seq<Seq<char>> {
    let qs = request.questions@;
    if qs.contains_key(WHY_QUESTION_ID@) && qs[WHY_QUESTION_ID@] is Choice {
        qs[WHY_QUESTION_ID@]->Choice_0.criteria.key_seq()
    } else {
        seq![stub_raw_reason(c, request)]
    }
}

/// The raw reason when it is an option, else the first option, else `cost`.
pub open spec fn stub_reason(c: StubTypesafeClient, request: SystemOneRequest) -> Seq<char> {
    let opts = why_options(c, request);
    let raw = stub_raw_reason(c, request);
    if opts.contains(raw) {
        raw
    } else if opts.len() > 0 {
        opts[0]
    } else {
        "cost"@
    }
}

/// Why the stub cannot answer the route Choice, if it cannot.
pub open spec fn route_error(c: StubTypesafeClient, request: SystemOneRequest) -> Option<Seq<char>> {
    let q = request.questions@[ROUTE_QUESTION_ID@];
    if !(q is Choice) {
        Some("route_to must be a Choice"@)
    } else if route_options(request).len() == 0 {
        Some("route_to Choice has no options"@)
    } else if c.force_model is Some && !route_options(request).contains(c.force_model.unwrap()@) {
        Some("force_model `"@ + c.force_model.unwrap()@ + "` not in criteria"@)
    } else {
        None
    }
}

/// The route and reason answers the stub gives.
pub open spec fn route_answers_are(c: StubTypesafeClient, request: SystemOneRequest, answers: Map<Seq<char>, Answer>) -> bool {
    let chosen = stub_chosen(c, request);
    let reason = stub_reason(c, request);
    &&& answers.contains_key(ROUTE_QUESTION_ID@)
    &&& choice_answer_is(answers[ROUTE_QUESTION_ID@], chosen, spread(route_options(request), chosen, 700_000, 300_000), 650_000)
    &&& answers.contains_key(WHY_QUESTION_ID@)
    &&& choice_answer_is(answers[WHY_QUESTION_ID@], reason, spread(why_options(c, request), reason, 800_000, 200_000), 700_000)
}

/// Number of levels of a Score rubric (at least one).
pub open spec fn level_count(criteria: Seq<Seq<char>>) -> nat {
    if criteria.len() == 0 { 1 } else { criteria.len() }
}

/// The level the stub puts most weight on: upper-mid for the known rubrics.
pub open spec fn score_peak(id: Seq<char>, n: nat) -> nat {
    let top = (n - 1) as nat;
    if id == QUALITY_QUESTION_ID@ {
        if top < 2 { top } else { 2 }
    } else if id == INSTRUCTION_FOLLOW_QUESTION_ID@ {
        top
    } else if id == TASK_FIT_QUESTION_ID@ {
        if top < 1 { top } else { 1 }
    } else {
        n / 2
    }
}

/// Level `i`'s text, or `level_i` past the end of the criteria.
pub open spec fn level_label(criteria: Seq<Seq<char>>, i: nat) -> Seq<char> {
    if i < criteria.len() { criteria[i as int] } else { "level_"@ + decimal(i) }
}

/// 750_000 on the peak level, `share` elsewhere.
pub open spec fn level_weight(i: nat, peak: nat, share: u32) -> u32 {
    if i == peak { 750_000 } else { share }
}

pub open spec fn score_share(n: nat) -> u32 {
    if n <= 1 { 0 } else { (250_000nat / (n - 1) as nat) as u32 }
}

/// `a` is the stub's Score answer for rubric `id` with these level texts:
/// level keys `"0"`, `"1"`, ..., 750_000 on the peak level, the rest shared
/// evenly, the score the peak level (in millionths, saturating).
pub open spec fn score_answer_is(a: Answer, id: Seq<char>, criteria: Seq<Seq<char>>) -> bool {
    let n = level_count(criteria);
    let peak = score_peak(id, n);
    &&& a is Score
    &&& a->Score_0.score == (if peak * 1_000_000 <= u64::MAX { (peak * 1_000_000) as u64 } else { u64::MAX })
    &&& a->Score_0.confidence == 720_000
    &&& forall|i: nat| i < n ==> (#[trigger] a->Score_0.legend@.contains_key(decimal(i)))
        && a->Score_0.legend@[decimal(i)]@ == level_label(criteria, i)
        && a->Score_0.probabilities@.contains_key(decimal(i))
        && a->Score_0.probabilities@[decimal(i)] == level_weight(i, peak, score_share(n))
    &&& forall|k: Seq<char>| #[trigger] a->Score_0.legend@.contains_key(k) ==> exists|i: nat| i < n && k == decimal(i)
    &&& forall|k: Seq<char>| #[trigger] a->Score_0.probabilities@.contains_key(k) ==> exists|i: nat| i < n && k == decimal(i)
}

/// The ids of the request's Score questions.
pub open spec fn score_ids(request: SystemOneRequest) -> Set<Seq<char>> {
    request.questions@.dom().filter(|k: Seq<char>| request.questions@[k] is Score)
}

fn signal_text<'a>(state: &'a Json, key: &str) -> (r: Option<&'a str>)
    ensures
        opt_str_view(r) == text_of(signal(state@, key@)),
{
    match state.get("signals") {
        Some(s) => member_text(s, key),
        None => None,
    }
}

fn signal_bool(state: &Json, key: &str) -> (r: Option<bool>)
    ensures
        r == bool_of(signal(state@, key@)),
{
    match state.get("signals") {
        Some(s) => member_bool(s, key),
        None => None,
    }
}

fn text_is(t: Option<&str>, lit: &str) -> (b: bool)
    ensures
        b == (opt_str_view(t) == Some(lit@)),
{
    match t {
        Some(s) => str_eq(s, lit),
        None => false,
    }
}

fn preferred_tier_for(task: Option<&str>) -> (r: Option<&'static str>)
    ensures
        opt_str_view(r) == preferred_tier(opt_str_view(task)),
{
    if text_is(task, "short-classify") {
        Some("T-small")
    } else if text_is(task, "code") || text_is(task, "creative") {
        Some("T-mid")
    } else if text_is(task, "long-reason") || text_is(task, "tool-use") {
        Some("T-frontier")
    } else {
        None
    }
}

fn row_fits_exec(row: &Json, opt: &str, tier: &str, tools: bool) -> (b: bool)
    ensures
        b == row_fits(row@, opt@, tier@, tools),
{
    text_is(member_text(row, "model_id"), opt) && text_is(member_text(row, "tier"), tier) && (!tools
        || member_bool(row, "tool_capable") == Some(true))
}

/// The first option that has a candidate row of `tier` (tool capable when
/// `require_tools`).
pub fn first_matching_tier(state: &Json, options: &[String], tier: &str, require_tools: bool) -> (r: Option<String>)
    ensures
        opt_string_view(r) == tier_match(state@, views_of(options@), tier@, require_tools),
{
    let cands = match state.get("candidates") {
        Some(c) => match c.as_array() {
            Some(a) => a,
            None => {
                return None;
            },
        },
        None => {
            return None;
        },
    };
    let ghost rows = crate::json::elems_view(cands@);
    let ghost opts = views_of(options@);
    let n = options.len();
    let m = cands.len();
    let mut i: usize = 0;
    while i < n
        invariant
            n == options@.len(),
            m == cands@.len(),
            rows.len() == m,
            opts == views_of(options@),
            member(state@, "candidates"@) == Some(JsonView::Array(rows)),
            forall|l: int| 0 <= l < m ==> #[trigger] rows[l] == cands@[l]@,
            i <= n,
            forall|k: int| 0 <= k < i ==> !option_fits(rows, #[trigger] opts[k], tier@, require_tools),
        decreases n - i,
    {
        let mut j: usize = 0;
        while j < m
            invariant
                n == options@.len(),
                m == cands@.len(),
                rows.len() == m,
                opts == views_of(options@),
                forall|l: int| 0 <= l < m ==> #[trigger] rows[l] == cands@[l]@,
                i < n,
                j <= m,
                member(state@, "candidates"@) == Some(JsonView::Array(rows)),
                forall|k: int| 0 <= k < i ==> !option_fits(rows, #[trigger] opts[k], tier@, require_tools),
                forall|l: int| 0 <= l < j ==> !row_fits(#[trigger] rows[l], options@[i as int]@, tier@, require_tools),
            decreases m - j,
        {
            if row_fits_exec(&cands[j], options[i].as_str(), tier, require_tools) {
                proof {
                    assert(row_fits(rows[j as int], opts[i as int], tier@, require_tools));
                    assert(option_fits(rows, opts[i as int], tier@, require_tools));
                    assert(first_fitting(rows, opts, tier@, require_tools, i as int));
                    let c = choose|c: int| first_fitting(rows, opts, tier@, require_tools, c);
                    if c < i {
                        assert(!option_fits(rows, opts[c], tier@, require_tools));
                    } else if c > i {
                        assert(!option_fits(rows, opts[i as int], tier@, require_tools));
                    }
                }
                return Some(options[i].clone());
            }
            j = j + 1;
        }
        proof {
            assert(opts[i as int] == options@[i as int]@);
            if option_fits(rows, opts[i as int], tier@, require_tools) {
                let l = choose|l: int| 0 <= l < rows.len() && row_fits(#[trigger] rows[l], opts[i as int], tier@, require_tools);
                assert(!row_fits(rows[l], options@[i as int]@, tier@, require_tools));
            }
        }
        i = i + 1;
    }
    proof {
        if exists|c: int| first_fitting(rows, opts, tier@, require_tools, c) {
            let c = choose|c: int| first_fitting(rows, opts, tier@, require_tools, c);
            assert(!option_fits(rows, opts[c], tier@, require_tools));
        }
    }
    None
}

/// Picks a route option from the packed state signals (see
/// [`heuristic_pick`]).
pub fn heuristic_choice(state: &Json, options: &[String], current: Option<&str>) -> (r: String)
    requires
        options@.len() > 0,
    ensures
        r@ == heuristic_pick(state@, views_of(options@), opt_str_view(current)),
{
    let task = signal_text(state, "task_class");
    let prefix = signal_text(state, "prefix_reuse");
    let tools = signal_bool(state, "tools_required") == Some(true);
    let preferred = preferred_tier_for(task);
    if text_is(prefix, "strong") {
        if let Some(cur) = current {
            if contains_text(options, cur) && !(text_is(task, "long-reason") || text_is(task, "tool-use")) {
                return cur.to_owned();
            }
        }
    }
    if let Some(tier) = preferred {
        if let Some(id) = first_matching_tier(state, options, tier, tools) {
            return id;
        }
    }
    if let Some(cur) = current {
        if contains_text(options, cur) {
            return cur.to_owned();
        }
    }
    assert(views_of(options@)[0] == options@[0]@);
    options[0].clone()
}

fn default_reason_exec(state: &Json, chosen: &str, current: Option<&str>) -> (r: &'static str)
    ensures
        r@ == default_reason(state@, chosen@, opt_str_view(current)),
{
    if text_is(current, chosen) {
        "continue_current"
    } else if text_is(signal_text(state, "prefix_reuse"), "strong") {
        "cache"
    } else {
        let task = signal_text(state, "task_class");
        if text_is(task, "long-reason") || text_is(task, "tool-use") || text_is(task, "code") || text_is(task, "creative") {
            "quality"
        } else {
            "cost"
        }
    }
}

/// The probability map of [`spread`], built over the options in order.
fn spread_exec(options: &[String], pick: &str, top: u32, rest: u32) -> (m: KeyedMap<u32>)
    ensures
        m@ == spread(views_of(options@), pick@, top, rest),
{
    let n = options.len();
    let share: u32 = if n <= 1 {
        0
    } else {
        let d = rest as usize / (n - 1);
        assert(d <= rest);
        d as u32
    };
    let ghost opts = views_of(options@);
    let mut m: KeyedMap<u32> = KeyedMap::new();
    let mut i: usize = 0;
    while i < n
        invariant
            n == options@.len(),
            opts == views_of(options@),
            share == (if n <= 1 { 0 } else { (rest as nat / (n - 1) as nat) as u32 }),
            i <= n,
            m@ == Map::new(
                |k: Seq<char>| opts.take(i as int).contains(k),
                |k: Seq<char>| if k == pick@ { top } else { share },
            ),
        decreases n - i,
    {
        let v = if str_eq(options[i].as_str(), pick) { top } else { share };
        let key = options[i].clone();
        assert(key@ == opts[i as int]);
        let ghost before = m@;
        m.insert(key, v);
        proof {
            assert(v == (if opts[i as int] == pick@ { top } else { share }));
            assert(m@ == before.insert(opts[i as int], v));
            let next = Map::new(
                |k: Seq<char>| opts.take(i as int + 1).contains(k),
                |k: Seq<char>| if k == pick@ { top } else { share },
            );
            assert(opts.take(i as int + 1) =~= opts.take(i as int).push(opts[i as int]));
            assert forall|k: Seq<char>| opts.take(i as int + 1).contains(k) <==> (opts.take(i as int).contains(k) || k == opts[i as int]) by {
                if opts.take(i as int + 1).contains(k) {
                    let x = choose|x: int| 0 <= x < i + 1 && #[trigger] opts.take(i as int + 1)[x] == k;
                    if x < i {
                        assert(opts.take(i as int)[x] == k);
                    }
                }
                if opts.take(i as int).contains(k) {
                    let x = choose|x: int| 0 <= x < i && #[trigger] opts.take(i as int)[x] == k;
                    assert(opts.take(i as int + 1)[x] == k);
                }
                if k == opts[i as int] {
                    assert(opts.take(i as int + 1)[i as int] == k);
                }
            }
            assert forall|k: Seq<char>| #[trigger] next.contains_key(k) implies m@.contains_key(k) && m@[k] == next[k] by {
            }
            assert forall|k: Seq<char>| #[trigger] m@.contains_key(k) implies next.contains_key(k) by {
                if k != opts[i as int] {
                    assert(before.contains_key(k));
                }
            }
            assert(m@ =~= next);
        }
        i = i + 1;
    }
    assert(opts.take(n as int) =~= opts);
    m
}

fn choice_options(q: &Question) -> (r: Option<Vec<String>>)
    ensures
        match r {
            Some(v) => q is Choice && views_of(v@) == q->Choice_0.criteria.key_seq(),
            None => !(q is Choice),
        },
{
    match q {
        Question::Choice(c) => {
            let v = c.criteria.keys();
            assert(views_of(v@) =~= c.criteria.key_seq());
            Some(v)
        },
        _ => None,
    }
}


/// The stub's answer to Score rubric `id` with these level texts.
pub fn stub_score_answer(id: &str, criteria: &[String]) -> (a: Answer)
    ensures
        score_answer_is(a, id@, views_of(criteria@)),
{
    let ghost cv = views_of(criteria@);
    let n: usize = if criteria.len() == 0 { 1 } else { criteria.len() };
    assert(n == level_count(cv));
    let top = n - 1;
    let peak: usize = if str_eq(id, QUALITY_QUESTION_ID) {
        if top < 2 { top } else { 2 }
    } else if str_eq(id, INSTRUCTION_FOLLOW_QUESTION_ID) {
        top
    } else if str_eq(id, TASK_FIT_QUESTION_ID) {
        if top < 1 { top } else { 1 }
    } else {
        n / 2
    };
    assert(peak == score_peak(id@, n as nat));
    let share: u32 = if n <= 1 {
        0
    } else {
        let d = 250_000usize / (n - 1);
        d as u32
    };
    assert(share == score_share(n as nat));
    let score: u64 = match (peak as u64).checked_mul(1_000_000) {
        Some(x) => x,
        None => u64::MAX,
    };
    let mut legend: KeyedMap<String> = KeyedMap::new();
    let mut probabilities: KeyedMap<u32> = KeyedMap::new();
    let mut i: usize = 0;
    while i < n
        invariant
            n == level_count(cv),
            cv == views_of(criteria@),
            peak == score_peak(id@, n as nat),
            share == score_share(n as nat),
            i <= n,
            forall|k: nat| k < i ==> #[trigger] legend@.contains_key(decimal(k)),
            forall|k: nat| k < i ==> #[trigger] legend@[decimal(k)]@ == level_label(cv, k),
            forall|k: nat| k < i ==> #[trigger] probabilities@.contains_key(decimal(k)),
            forall|k: nat| k < i ==> #[trigger] probabilities@[decimal(k)] == level_weight(k, peak as nat, share),
            forall|key: Seq<char>| #[trigger] legend@.contains_key(key) ==> exists|k: nat| k < i && key == decimal(k),
            forall|key: Seq<char>| #[trigger] probabilities@.contains_key(key) ==> exists|k: nat| k < i && key == decimal(k),
        decreases n - i,
    {
        let key = decimal_string(i as u128);
        let label: String = if i < criteria.len() {
            criteria[i].clone()
        } else {
            let mut s = "level_".to_owned();
            s.append(key.as_str());
            s
        };
        let p: u32 = if i == peak { 750_000 } else { share };
        let ghost l0 = legend@;
        let ghost p0 = probabilities@;
        let ghost kv = decimal(i as nat);
        let ghost lv = label;
        assert(key@ == kv);
        assert(lv@ == level_label(cv, i as nat));
        assert(p == level_weight(i as nat, peak as nat, share));
        legend.insert(key.clone(), label);
        probabilities.insert(key, p);
        proof {
            assert(legend@ == l0.insert(kv, lv));
            assert(probabilities@ == p0.insert(kv, p));
            assert forall|k: nat| k < i implies decimal(k) != kv by {
                if decimal(k) == kv {
                    lemma_decimal_injective(k, i as nat);
                }
            }
            assert forall|k: nat| k < i + 1 implies #[trigger] legend@.contains_key(decimal(k)) by {
                if k < i {
                    assert(l0.contains_key(decimal(k)));
                }
            }
            assert forall|k: nat| k < i + 1 implies #[trigger] legend@[decimal(k)]@ == level_label(cv, k) by {
                if k < i {
                    assert(decimal(k) != kv);
                    assert(l0.contains_key(decimal(k)));
                    assert(l0[decimal(k)]@ == level_label(cv, k));
                }
            }
            assert forall|k: nat| k < i + 1 implies #[trigger] probabilities@.contains_key(decimal(k)) by {
                if k < i {
                    assert(p0.contains_key(decimal(k)));
                }
            }
            assert forall|k: nat| k < i + 1 implies #[trigger] probabilities@[decimal(k)] == level_weight(k, peak as nat, share) by {
                if k < i {
                    assert(decimal(k) != kv);
                    assert(p0.contains_key(decimal(k)));
                    assert(p0[decimal(k)] == level_weight(k, peak as nat, share));
                }
            }
            assert forall|key: Seq<char>| #[trigger] legend@.contains_key(key) implies exists|k: nat| k < i + 1 && key == decimal(k) by {
                if key != kv {
                    assert(l0.contains_key(key));
                }
            }
            assert forall|key: Seq<char>| #[trigger] probabilities@.contains_key(key) implies exists|k: nat| k < i + 1 && key == decimal(k) by {
                if key != kv {
                    assert(p0.contains_key(key));
                }
            }
        }
        i = i + 1;
    }
    Answer::Score(ScoreAnswer { score, legend, probabilities, confidence: 720_000 })
}

/// What the stub answers to `request`: the route errors of
/// [`route_error`]; an error when there is neither a route Choice nor a
/// Score question; else the route and reason Choices (when asked) and one
/// Score answer per Score question, with fixed usage.
pub open spec fn stub_response_is(c: StubTypesafeClient, request: SystemOneRequest, r: Result<SystemOneResponse, TypesafeError>) -> bool {
    let qs = request.questions@;
    let has_route = qs.contains_key(ROUTE_QUESTION_ID@);
    if has_route && route_error(c, request) is Some {
        r matches Err(TypesafeError::UnexpectedAnswer(e)) && e@ == route_error(c, request).unwrap()
    } else if !has_route && score_ids(request) == Set::<Seq<char>>::empty() {
        r matches Err(TypesafeError::UnexpectedAnswer(e)) && e@ == "stub: no Choice or Score questions to answer"@
    } else {
        r matches Ok(resp) && {
            let answers = resp.answers@;
            let chosen = stub_chosen(c, request);
            let reason = stub_reason(c, request);
            &&& resp.model@ == request.model@
            &&& resp.usage == Some(Usage { input_tokens: 128, output_tokens: 16 })
            &&& answers.dom() == (if has_route {
                set![ROUTE_QUESTION_ID@, WHY_QUESTION_ID@]
            } else {
                Set::<Seq<char>>::empty()
            }).union(score_ids(request))
            &&& forall|k: Seq<char>| #[trigger] score_ids(request).contains(k) ==> score_answer_is(
                answers[k],
                k,
                views_of(qs[k]->Score_0.criteria@),
            )
            &&& has_route ==> choice_answer_is(
                answers[ROUTE_QUESTION_ID@],
                chosen,
                spread(route_options(request), chosen, 700_000, 300_000),
                650_000,
            )
            &&& has_route && !score_ids(request).contains(WHY_QUESTION_ID@) ==> choice_answer_is(
                answers[WHY_QUESTION_ID@],
                reason,
                spread(why_options(c, request), reason, 800_000, 200_000),
                700_000,
            )
        }
    }
}

impl TypesafeClient for StubTypesafeClient {
    open spec fn replies(&self, request: SystemOneRequest, r: Result<SystemOneResponse, TypesafeError>) -> bool {
        stub_response_is(*self, request, r)
    }

    fn system_one(&self, request: &SystemOneRequest) -> (r: Result<SystemOneResponse, TypesafeError>)
        ensures
            stub_response_is(*self, *request, r),
    {
        let ghost qs = request.questions@;
        let has_route = request.questions.contains_key(ROUTE_QUESTION_ID);
        let mut answers: KeyedMap<Answer> = KeyedMap::new();
        if has_route {
            match self.answer_route(request) {
                Ok(a) => {
                    answers = a;
                },
                Err(e) => {
                    return Err(e);
                },
            }
        }
        let ghost base = answers@;
        let ids = request.questions.keys();
        let n = ids.len();
        let mut i: usize = 0;
        while i < n
            invariant
                qs == request.questions@,
                base.dom() == (if has_route {
                    set![ROUTE_QUESTION_ID@, WHY_QUESTION_ID@]
                } else {
                    Set::<Seq<char>>::empty()
                }),
                n == ids@.len(),
                i <= n,
                forall|a: int, b: int| 0 <= a < b < ids@.len() ==> str_lt(#[trigger] ids@[a]@, #[trigger] ids@[b]@),
                forall|a: int| 0 <= a < ids@.len() ==> qs.contains_key(#[trigger] ids@[a]@),
                forall|k: Seq<char>| #[trigger] answers@.contains_key(k) <==> (base.contains_key(k) || exists|j: int|
                    0 <= j < i && #[trigger] ids@[j]@ == k && qs[k] is Score),
                forall|j: int| 0 <= j < i && qs[#[trigger] ids@[j]@] is Score ==> score_answer_is(
                    answers@[ids@[j]@],
                    ids@[j]@,
                    views_of(qs[ids@[j]@]->Score_0.criteria@),
                ),
                forall|k: Seq<char>| #[trigger] base.contains_key(k) && !(exists|j: int| 0 <= j < i && #[trigger] ids@[j]@ == k
                    && qs[k] is Score) ==> answers@[k] == base[k],
            decreases n - i,
        {
            let id = &ids[i];
            match request.questions.get(id.as_str()) {
                Some(Question::Score(sq)) => {
                    let a = stub_score_answer(id.as_str(), sq.criteria.as_slice());
                    let ghost before = answers@;
                    answers.insert(id.clone(), a);
                    proof {
                        assert forall|j: int| 0 <= j < i implies #[trigger] ids@[j]@ != ids@[i as int]@ by {
                            assert(str_lt(ids@[j]@, ids@[i as int]@));
                            crate::text::lemma_str_lt_irreflexive(ids@[j]@);
                        }
                        assert forall|k: Seq<char>| #[trigger] answers@.contains_key(k) <==> (base.contains_key(k) || exists|j: int|
                            0 <= j < i + 1 && #[trigger] ids@[j]@ == k && qs[k] is Score) by {
                            if k == ids@[i as int]@ {
                                assert(ids@[i as int]@ == k && qs[k] is Score);
                            } else if exists|j: int| 0 <= j < i + 1 && #[trigger] ids@[j]@ == k && qs[k] is Score {
                                let j = choose|j: int| 0 <= j < i + 1 && #[trigger] ids@[j]@ == k && qs[k] is Score;
                                assert(j < i);
                            }
                        }
                        assert forall|j: int| 0 <= j < i + 1 && qs[#[trigger] ids@[j]@] is Score implies score_answer_is(
                            answers@[ids@[j]@],
                            ids@[j]@,
                            views_of(qs[ids@[j]@]->Score_0.criteria@),
                        ) by {
                            if j < i {
                                assert(before.contains_key(ids@[j]@));
                            }
                        }
                        assert forall|k: Seq<char>| #[trigger] base.contains_key(k) && !(exists|j: int| 0 <= j < i + 1 && #[trigger] ids@[j]@ == k
                            && qs[k] is Score) implies answers@[k] == base[k] by {
                            assert(k != ids@[i as int]@);
                            assert(!(exists|j: int| 0 <= j < i && #[trigger] ids@[j]@ == k && qs[k] is Score)) by {
                                if exists|j: int| 0 <= j < i && #[trigger] ids@[j]@ == k && qs[k] is Score {
                                    let j = choose|j: int| 0 <= j < i && #[trigger] ids@[j]@ == k && qs[k] is Score;
                                    assert(0 <= j < i + 1 && ids@[j]@ == k && qs[k] is Score);
                                }
                            }
                        }
                    }
                },
                _ => {
                    proof {
                        assert(!(qs[ids@[i as int]@] is Score));
                        assert forall|k: Seq<char>| #[trigger] answers@.contains_key(k) <==> (base.contains_key(k) || exists|j: int|
                            0 <= j < i + 1 && #[trigger] ids@[j]@ == k && qs[k] is Score) by {
                            if exists|j: int| 0 <= j < i + 1 && #[trigger] ids@[j]@ == k && qs[k] is Score {
                                let j = choose|j: int| 0 <= j < i + 1 && #[trigger] ids@[j]@ == k && qs[k] is Score;
                                assert(j < i);
                            }
                        }
                        assert forall|k: Seq<char>| #[trigger] base.contains_key(k) && !(exists|j: int| 0 <= j < i + 1 && #[trigger] ids@[j]@ == k
                            && qs[k] is Score) implies answers@[k] == base[k] by {
                            assert(!(exists|j: int| 0 <= j < i && #[trigger] ids@[j]@ == k && qs[k] is Score)) by {
                                if exists|j: int| 0 <= j < i && #[trigger] ids@[j]@ == k && qs[k] is Score {
                                    let j = choose|j: int| 0 <= j < i && #[trigger] ids@[j]@ == k && qs[k] is Score;
                                    assert(0 <= j < i + 1 && ids@[j]@ == k && qs[k] is Score);
                                }
                            }
                        }
                    }
                },
            }
            i = i + 1;
        }
        proof {
            lemma_score_ids_listed(*request, ids@, answers@, base);
        }
        proof {
            if !has_route && score_ids(*request) == Set::<Seq<char>>::empty() {
                assert(answers@.dom() =~= Set::<Seq<char>>::empty());
            }
        }
        if answers.is_empty() {
            proof {
                assert(score_ids(*request) =~= Set::<Seq<char>>::empty()) by {
                    assert forall|k: Seq<char>| !score_ids(*request).contains(k) by {
                        if score_ids(*request).contains(k) {
                            assert(answers@.dom().contains(k));
                        }
                    }
                }
                if has_route {
                    assert(base.dom().contains(ROUTE_QUESTION_ID@));
                    assert(answers@.dom().contains(ROUTE_QUESTION_ID@));
                }
            }
            return Err(TypesafeError::UnexpectedAnswer("stub: no Choice or Score questions to answer".to_owned()));
        }
        Ok(SystemOneResponse {
            model: request.model.clone(),
            answers,
            usage: Some(Usage { input_tokens: 128, output_tokens: 16 }),
        })
    }
}

/// Once every listed question has been visited, the answers cover the base
/// answers and exactly the Score questions.
proof fn lemma_score_ids_listed(
    request: SystemOneRequest,
    ids: Seq<String>,
    answers: Map<Seq<char>, Answer>,
    base: Map<Seq<char>, Answer>,
)
    requires
        forall|a: int| 0 <= a < ids.len() ==> request.questions@.contains_key(#[trigger] ids[a]@),
        forall|k: Seq<char>| #[trigger] request.questions@.contains_key(k) ==> exists|a: int| 0 <= a < ids.len() && #[trigger] ids[a]@ == k,
        forall|k: Seq<char>| #[trigger] answers.contains_key(k) <==> (base.contains_key(k) || exists|j: int|
            0 <= j < ids.len() && #[trigger] ids[j]@ == k && request.questions@[k] is Score),
    ensures
        answers.dom() == base.dom().union(score_ids(request)),
        forall|k: Seq<char>| #[trigger] score_ids(request).contains(k) ==> exists|j: int| 0 <= j < ids.len() && #[trigger] ids[j]@ == k,
{
    let qs = request.questions@;
    assert forall|k: Seq<char>| #[trigger] answers.dom().contains(k) <==> base.dom().union(score_ids(request)).contains(k) by {
        if score_ids(request).contains(k) {
            assert(qs.contains_key(k));
            let a = choose|a: int| 0 <= a < ids.len() && #[trigger] ids[a]@ == k;
            assert(0 <= a < ids.len() && ids[a]@ == k && qs[k] is Score);
        }
    }
    assert(answers.dom() =~= base.dom().union(score_ids(request)));
    assert forall|k: Seq<char>| #[trigger] score_ids(request).contains(k) implies exists|j: int| 0 <= j < ids.len() && #[trigger] ids[j]@ == k by {
        assert(qs.contains_key(k));
    }
}

impl StubTypesafeClient {
    /// The `route_to` and `primary_reason` answers.
    fn answer_route(&self, request: &SystemOneRequest) -> (r: Result<KeyedMap<Answer>, TypesafeError>)
        requires
            request.questions@.contains_key(ROUTE_QUESTION_ID@),
        ensures
            match route_error(*self, *request) {
                Some(m) => r matches Err(TypesafeError::UnexpectedAnswer(e)) && e@ == m,
                None => r matches Ok(a) && route_answers_are(*self, *request, a@) && a@.dom() == set![
                    ROUTE_QUESTION_ID@,
                    WHY_QUESTION_ID@,
                ],
            },
    {
        let route_q = match request.questions.get(ROUTE_QUESTION_ID) {
            Some(q) => q,
            None => {
                return Err(TypesafeError::UnexpectedAnswer("route_to must be a Choice".to_owned()));
            },
        };
        let options = match choice_options(route_q) {
            Some(v) => v,
            None => {
                return Err(TypesafeError::UnexpectedAnswer("route_to must be a Choice".to_owned()));
            },
        };
        let ghost opts = views_of(options@);
        assert(opts == route_options(*request));
        if options.len() == 0 {
            return Err(TypesafeError::UnexpectedAnswer("route_to Choice has no options".to_owned()));
        }
        let current: Option<&str> = member_text(&request.state, "current_model");
        let chosen: String = match &self.force_model {
            Some(forced) => {
                if !contains_text(options.as_slice(), forced.as_str()) {
                    let mut m = String::new();
                    m.append("force_model `");
                    m.append(forced.as_str());
                    m.append("` not in criteria");
                    return Err(TypesafeError::UnexpectedAnswer(m));
                }
                forced.clone()
            },
            None => heuristic_choice(&request.state, options.as_slice(), current),
        };
        assert(chosen@ == stub_chosen(*self, *request));
        let probabilities = spread_exec(options.as_slice(), chosen.as_str(), 700_000, 300_000);
        let raw: String = match &self.force_reason {
            Some(fr) => fr.clone(),
            None => default_reason_exec(&request.state, chosen.as_str(), current).to_owned(),
        };
        assert(raw@ == stub_raw_reason(*self, *request));
        let why_opts: Vec<String> = match request.questions.get(WHY_QUESTION_ID) {
            Some(q) => match choice_options(q) {
                Some(v) => v,
                None => vec![raw.clone()],
            },
            None => vec![raw.clone()],
        };
        assert(views_of(why_opts@) =~= why_options(*self, *request));
        let reason: String = if contains_text(why_opts.as_slice(), raw.as_str()) {
            raw
        } else if why_opts.len() > 0 {
            assert(views_of(why_opts@)[0] == why_opts@[0]@);
            why_opts[0].clone()
        } else {
            "cost".to_owned()
        };
        assert(reason@ == stub_reason(*self, *request));
        let why_probs = spread_exec(why_opts.as_slice(), reason.as_str(), 800_000, 200_000);
        let mut answers: KeyedMap<Answer> = KeyedMap::new();
        answers.insert(
            ROUTE_QUESTION_ID.to_owned(),
            Answer::Choice(ChoiceAnswer { choice: chosen, probabilities, confidence: 650_000 }),
        );
        answers.insert(
            WHY_QUESTION_ID.to_owned(),
            Answer::Choice(ChoiceAnswer { choice: reason, probabilities: why_probs, confidence: 700_000 }),
        );
        proof {
            reveal_strlit("route_to");
            reveal_strlit("primary_reason");
            assert(ROUTE_QUESTION_ID@.len() == 8);
            assert(WHY_QUESTION_ID@.len() == 14);
            assert(answers@.dom() =~= set![ROUTE_QUESTION_ID@, WHY_QUESTION_ID@]);
        }
        Ok(answers)
    }
}

/// The stub routes to one of the route Choice options whenever it answers.
pub proof fn lemma_stub_choice_is_option(c: StubTypesafeClient, request: SystemOneRequest)
    requires
        request.questions@.contains_key(ROUTE_QUESTION_ID@),
        route_error(c, request) is None,
    ensures
        route_options(request).contains(stub_chosen(c, request)),
{
    let options = route_options(request);
    let state = request.state@;
    if c.force_model is None {
        let task = text_of(signal(state, "task_class"@));
        let tools = bool_of(signal(state, "tools_required"@)) == Some(true);
        let pref = preferred_tier(task);
        if pref is Some && tier_match(state, options, pref.unwrap(), tools) is Some {
            let rows = member(state, "candidates"@)->0->Array_0;
            let i = choose|i: int| first_fitting(rows, options, pref.unwrap(), tools, i);
            assert(options[i] == tier_match(state, options, pref.unwrap(), tools).unwrap());
        }
        assert(options[0] == options[0]);
    }
}

/// The tier the stub serves each task class with: T-small for
/// short-classify, T-mid for code and creative, T-frontier for long-reason
/// and tool-use. That tier never carries an open risk for its task.
pub proof fn lemma_task_tiers(t: TaskClass)
    ensures
        ({
            let tier = match t {
                TaskClass::ShortClassify => ModelTier::Small,
                TaskClass::Code => ModelTier::Mid,
                TaskClass::Creative => ModelTier::Mid,
                TaskClass::LongReason => ModelTier::Frontier,
                TaskClass::ToolUse => ModelTier::Frontier,
            };
            &&& preferred_tier(Some(task_class_name(t))) == Some(tier_name(tier))
            &&& open_risk_text(Some(t), Some(tier)) is None
        }),
{
    lemma_task_names_distinct();
}

proof fn lemma_task_names_distinct()
    ensures
        "short-classify"@ != "code"@,
        "short-classify"@ != "creative"@,
        "code"@ != "creative"@,
        "short-classify"@ != "long-reason"@,
        "short-classify"@ != "tool-use"@,
        "code"@ != "long-reason"@,
        "code"@ != "tool-use"@,
        "creative"@ != "long-reason"@,
        "creative"@ != "tool-use"@,
        "long-reason"@ != "tool-use"@,
{
    reveal_strlit("short-classify");
    reveal_strlit("code");
    reveal_strlit("creative");
    reveal_strlit("long-reason");
    reveal_strlit("tool-use");
    assert("short-classify"@.len() == 14);
    assert("code"@.len() == 4);
    assert("creative"@.len() == 8);
    assert("long-reason"@.len() == 11);
    assert("tool-use"@.len() == 8);
    assert("creative"@[0] != "tool-use"@[0]);
}

/// Without strong prefix reuse to keep a warm model, the stub routes a task
/// to the first option of its class's tier (T-small for short-classify,
/// T-mid for code and creative, T-frontier for long-reason and tool-use)
/// whenever an option of that tier fits.
pub proof fn lemma_stub_routes_task_to_its_tier(
    state: JsonView,
    options: Seq<Seq<char>>,
    current: Option<Seq<char>>,
    t: TaskClass,
)
    requires
        text_of(signal(state, "task_class"@)) == Some(task_class_name(t)),
        text_of(signal(state, "prefix_reuse"@)) != Some("strong"@),
        ({
            let tier = match t {
                TaskClass::ShortClassify => ModelTier::Small,
                TaskClass::Code => ModelTier::Mid,
                TaskClass::Creative => ModelTier::Mid,
                TaskClass::LongReason => ModelTier::Frontier,
                TaskClass::ToolUse => ModelTier::Frontier,
            };
            tier_match(state, options, tier_name(tier), bool_of(signal(state, "tools_required"@)) == Some(true)) is Some
        }),
    ensures
        ({
            let tier = match t {
                TaskClass::ShortClassify => ModelTier::Small,
                TaskClass::Code => ModelTier::Mid,
                TaskClass::Creative => ModelTier::Mid,
                TaskClass::LongReason => ModelTier::Frontier,
                TaskClass::ToolUse => ModelTier::Frontier,
            };
            heuristic_pick(state, options, current)
                == tier_match(state, options, tier_name(tier), bool_of(signal(state, "tools_required"@)) == Some(true)).unwrap()
        }),
{
    lemma_task_tiers(t);
}

/// Scoring a packed Score request with the stub and reading the answers
/// gives the quality and instruction-follow rubrics, and the task-fit
/// rubric exactly when it was asked for.
pub proof fn lemma_stub_scores_read(
    c: StubTypesafeClient,
    job: crate::score::ScoreJob,
    include_task_fit: bool,
    request: SystemOneRequest,
    response: SystemOneResponse,
    scores: Result<crate::score::OutcomeScores, String>,
)
    requires
        crate::score::score_request_is(request, job, include_task_fit),
        stub_response_is(c, request, Ok(response)),
        crate::score::scores_read(response.answers@, scores),
    ensures
        scores is Ok,
        scores->Ok_0.quality is Some,
        scores->Ok_0.instruction_follow is Some,
        scores->Ok_0.task_fit is Some <==> include_task_fit,
{
    reveal_strlit("quality");
    reveal_strlit("instruction_follow");
    reveal_strlit("task_fit");
    reveal_strlit("route_to");
    let qs = request.questions@;
    assert(QUALITY_QUESTION_ID@.len() == 7);
    assert(INSTRUCTION_FOLLOW_QUESTION_ID@.len() == 18);
    assert(TASK_FIT_QUESTION_ID@.len() == 8);
    assert(ROUTE_QUESTION_ID@.len() == 8);
    assert(ROUTE_QUESTION_ID@ != TASK_FIT_QUESTION_ID@) by {
        assert(ROUTE_QUESTION_ID@[0] != TASK_FIT_QUESTION_ID@[0]);
    }
    assert(!qs.contains_key(ROUTE_QUESTION_ID@));
    assert(score_ids(request).contains(QUALITY_QUESTION_ID@));
    assert(score_ids(request).contains(INSTRUCTION_FOLLOW_QUESTION_ID@));
    if include_task_fit {
        assert(score_ids(request).contains(TASK_FIT_QUESTION_ID@));
    } else {
        assert(!response.answers@.contains_key(TASK_FIT_QUESTION_ID@));
    }
}

} // verus!
