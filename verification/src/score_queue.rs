//! The asynchronous Score queue, kept off the hot path.
//!
//! Hot path: Choice route → model output → persist a pending
//! [`RouteOutcome`] → enqueue a [`ScoreJob`] → return. Worker: dequeue →
//! System One Score → patch the outcome (scored or failed).

use vstd::prelude::*;
use vstd::multiset::Multiset;
use vstd::pervasive::arbitrary;

use std::collections::VecDeque;

use crate::error::{typesafe_error_text, ModelProviderError, RouterError, TypesafeError};
use crate::model_provider::{complete_request_from_session, session_prompt, CompleteRequest, CompleteResponse, ModelProvider, ModelRuntime};
use crate::router::{route_outcome, Router};
use crate::score::{
    incoming_prompt, incoming_prompt_from_session, new_id, pack_score_request, parse_score_response,
    pending_outcome_is, same_turn, score_request_is, scores_read, unix_timestamp_string, ClientMode, OutcomeScores,
    RouteOutcome, ScoreJob, ScoresStatus,
};
use crate::text::{decimal, lemma_str_lt_irreflexive, lemma_str_lt_transitive, str_less, str_lt};
use crate::types::{same_decision, RouterDecision, RouterRequest};
use crate::typesafe::api::{SystemOneRequest, SystemOneResponse};
use crate::typesafe::TypesafeClient;

verus! {

/// A queue of Score jobs.
///
/// Each implementation describes what it holds by `jobs`; the methods'
/// contracts say how a successful call changes it. A failed call promises
/// nothing beyond `hands_out`.
pub trait ScoreQueue {
    /// The jobs waiting in the queue, as a multiset: a queue need not
    /// hand them out in any particular order.
    closed spec fn jobs(&self) -> Multiset<ScoreJob> {
        arbitrary()
    }

    /// A dequeue from this queue can give `r` and leave `after`. An
    /// implementation that knows its dequeues states them here; by default
    /// any outcome is possible.
    open spec fn hands_out(&self, after: &Self, r: Result<Option<ScoreJob>, RouterError>) -> bool {
        true
    }

    fn enqueue(&mut self, job: ScoreJob) -> (r: Result<(), RouterError>)
        ensures
            r is Ok ==> final(self).jobs() == old(self).jobs().insert(job),
    ;

    fn dequeue(&mut self) -> (r: Result<Option<ScoreJob>, RouterError>)
        ensures
            old(self).hands_out(&*final(self), r),
            r matches Ok(None) ==> old(self).jobs().len() == 0 && final(self).jobs() == old(self).jobs(),
            r matches Ok(Some(j)) ==> old(self).jobs().count(j) > 0 && final(self).jobs() == old(self).jobs().remove(j),
    ;

    fn len(&self) -> (r: Result<usize, RouterError>)
        ensures
            r matches Ok(n) ==> n == self.jobs().len(),
    ;

    fn is_empty(&self) -> (r: Result<bool, RouterError>)
        ensures
            r matches Ok(b) ==> b == (self.jobs().len() == 0),
    {
        match self.len() {
            Ok(n) => Ok(n == 0),
            Err(e) => Err(e),
        }
    }
}

/// Persists and loads [`RouteOutcome`] records.
///
/// Each implementation describes what it holds by `records`; the methods'
/// contracts say what a successful call does with it. A failed call
/// promises nothing beyond `saves` and `loads`.
pub trait OutcomeStore {
    /// The stored records, by outcome id.
    closed spec fn records(&self) -> Map<Seq<char>, RouteOutcome> {
        arbitrary()
    }

    /// Saving `outcome` in this store can give `r` and leave `after`. An
    /// implementation that knows its saves states them here; by default any
    /// outcome is possible.
    open spec fn saves(&self, after: &Self, outcome: RouteOutcome, r: Result<(), RouterError>) -> bool {
        true
    }

    /// Loading `outcome_id` from this store can give `r`. An implementation
    /// that knows its loads states them here; by default any result is
    /// possible.
    open spec fn loads(&self, outcome_id: Seq<char>, r: Result<RouteOutcome, RouterError>) -> bool {
        true
    }

    fn save(&mut self, outcome: &RouteOutcome) -> (r: Result<(), RouterError>)
        ensures
            old(self).saves(&*final(self), *outcome, r),
            r is Ok ==> final(self).records() == old(self).records().insert(outcome.outcome_id@, *outcome),
    ;

    fn load(&self, outcome_id: &str) -> (r: Result<RouteOutcome, RouterError>)
        ensures
            self.loads(outcome_id@, r),
            r matches Ok(o) ==> self.records().contains_key(outcome_id@) && o == self.records()[outcome_id@],
    ;
}

/// Process-local first-in first-out queue.
#[derive(Debug)]
pub struct InMemoryScoreQueue {
    inner: VecDeque<ScoreJob>,
}

impl InMemoryScoreQueue {
    /// The queued jobs, oldest first.
    pub closed spec fn queued(&self) -> Seq<ScoreJob> {
        self.inner@
    }

    /// A queue's contents are its queued jobs, counted without their order.
    pub proof fn lemma_jobs_are_queued(&self)
        ensures
            self.jobs() == self.queued().to_multiset(),
    {
    }

    pub fn new() -> (q: Self)
        ensures
            q.queued() == Seq::<ScoreJob>::empty(),
            q.jobs() == Multiset::<ScoreJob>::empty(),
    {
        proof {
            broadcast use vstd::seq_lib::group_to_multiset_ensures;
            assert(Seq::<ScoreJob>::empty().to_multiset().len() == 0);
        }
        InMemoryScoreQueue { inner: VecDeque::new() }
    }
}

impl ScoreQueue for InMemoryScoreQueue {
    closed spec fn jobs(&self) -> Multiset<ScoreJob> {
        self.inner@.to_multiset()
    }

    fn enqueue(&mut self, job: ScoreJob) -> (r: Result<(), RouterError>)
        ensures
            r is Ok,
            final(self).queued() == old(self).queued().push(job),
    {
        proof {
            broadcast use vstd::seq_lib::group_to_multiset_ensures;
        }
        self.inner.push_back(job);
        Ok(())
    }

    fn dequeue(&mut self) -> (r: Result<Option<ScoreJob>, RouterError>)
        ensures
            old(self).queued().len() == 0 ==> (r matches Ok(None) && final(self).queued() == old(self).queued()),
            old(self).queued().len() > 0 ==> (r matches Ok(Some(j)) && j == old(self).queued()[0]
                && final(self).queued() == old(self).queued().drop_first()),
    {
        proof {
            broadcast use vstd::seq_lib::group_to_multiset_ensures;
            if self.inner@.len() > 0 {
                assert(self.inner@.drop_first() =~= self.inner@.remove(0));
                assert(self.inner@.to_multiset().count(self.inner@[0]) > 0);
            }
        }
        Ok(self.inner.pop_front())
    }

    fn len(&self) -> (r: Result<usize, RouterError>)
        ensures
            r matches Ok(n) && n == self.queued().len(),
    {
        proof {
            broadcast use vstd::seq_lib::group_to_multiset_ensures;
        }
        Ok(self.inner.len())
    }
}

/// Hot-path result: the decision and the pending outcome (scores not
/// awaited).
#[derive(Debug)]
pub struct HotPathResult {
    pub decision: RouterDecision,
    pub outcome: RouteOutcome,
    pub score_job_id: String,
}

/// `job` is the Score job for the pending outcome `o` of this turn: same
/// outcome, the router's System One model, the session's incoming prompt,
/// the decision's chosen model and the output; no task-fit rubric.
pub open spec fn score_job_is(
    job: ScoreJob,
    o: RouteOutcome,
    system_one_model: Seq<char>,
    request: RouterRequest,
    decision: RouterDecision,
) -> bool {
    &&& job.outcome_id@ == o.outcome_id@
    &&& job.typesafe_model@ == system_one_model
    &&& job.incoming_prompt@ == incoming_prompt(request.session@)
    &&& job.chosen_model@ == decision.chosen_model@
    &&& job.model_output@ == o.model_output@
    &&& job.task_class == request.task_class
    &&& same_decision(job.decision, decision)
    &&& !job.include_task_fit
    &&& exists|n: nat| job.enqueued_at@ == decimal(n)
}

/// The pending outcome (id `out_<clock>`) and its Score job (id
/// `score_<clock>`) for a routed turn.
pub fn pending_records(
    system_one_model: &str,
    request: &RouterRequest,
    decision: &RouterDecision,
    model_output: &str,
    output_tokens_est: Option<u32>,
    client_mode: ClientMode,
) -> (r: (RouteOutcome, ScoreJob))
    ensures
        pending_outcome_is(r.0, r.0.outcome_id@, *request, *decision, model_output@, output_tokens_est, client_mode, system_one_model@),
        exists|n: nat| r.0.outcome_id@ == "out"@ + "_"@ + decimal(n),
        exists|n: nat| r.1.job_id@ == "score"@ + "_"@ + decimal(n),
        score_job_is(r.1, r.0, system_one_model@, *request, *decision),
{
    let outcome_id = new_id("out");
    let outcome = RouteOutcome::pending(
        outcome_id.as_str(),
        request,
        decision.clone(),
        model_output,
        output_tokens_est,
        client_mode,
        system_one_model,
    );
    let job = ScoreJob {
        job_id: new_id("score"),
        outcome_id,
        typesafe_model: system_one_model.to_owned(),
        incoming_prompt: incoming_prompt_from_session(request.session.as_slice()),
        chosen_model: decision.chosen_model.clone(),
        model_output: model_output.to_owned(),
        task_class: request.task_class,
        decision: decision.clone(),
        include_task_fit: false,
        enqueued_at: unix_timestamp_string(),
    };
    (outcome, job)
}

/// Saves the pending outcome and enqueues its Score job; the result holds
/// the decision, the pending outcome and the job id.
fn persist_pending_and_enqueue<Q: ScoreQueue, S: OutcomeStore>(
    system_one_model: &str,
    request: &RouterRequest,
    decision: RouterDecision,
    model_output: &str,
    output_tokens_est: Option<u32>,
    client_mode: ClientMode,
    queue: &mut Q,
    store: &mut S,
) -> (r: Result<HotPathResult, RouterError>)
    ensures
        r matches Ok(h) ==> {
            &&& same_decision(h.decision, decision)
            &&& pending_outcome_is(h.outcome, h.outcome.outcome_id@, *request, decision, model_output@, output_tokens_est, client_mode, system_one_model@)
            &&& exists|n: nat| h.score_job_id@ == "score"@ + "_"@ + decimal(n)
            &&& final(store).records() == old(store).records().insert(h.outcome.outcome_id@, h.outcome)
            &&& exists|job: ScoreJob| {
                &&& score_job_is(job, h.outcome, system_one_model@, *request, decision)
                &&& job.job_id@ == h.score_job_id@
                &&& final(queue).jobs() == old(queue).jobs().insert(job)
            }
        },
{
    let (outcome, job) = pending_records(system_one_model, request, &decision, model_output, output_tokens_est, client_mode);
    match store.save(&outcome) {
        Ok(()) => {},
        Err(e) => {
            return Err(e);
        },
    }
    let score_job_id = job.job_id.clone();
    let ghost queued_job = job;
    match queue.enqueue(job) {
        Ok(()) => {},
        Err(e) => {
            return Err(e);
        },
    }
    let ghost d = decision;
    let result = HotPathResult { decision, outcome, score_job_id };
    assert(same_decision(result.decision, d));
    assert(score_job_is(queued_job, result.outcome, system_one_model@, *request, d));
    Ok(result)
}

/// What the hot path does once routing gave `rr`: a routing error is the
/// result and nothing is saved or queued; after a decision, a success
/// holds that decision and the turn's records.
pub open spec fn hot_path_done<Q: ScoreQueue, S: OutcomeStore>(
    rr: Result<RouterDecision, RouterError>,
    request: RouterRequest,
    system_one_model: Seq<char>,
    model_output: Seq<char>,
    output_tokens_est: Option<u32>,
    client_mode: ClientMode,
    queue_before: Q,
    queue_after: Q,
    store_before: S,
    store_after: S,
    r: Result<HotPathResult, RouterError>,
) -> bool {
    match rr {
        Err(e) => r == Err::<HotPathResult, RouterError>(e) && queue_after == queue_before && store_after == store_before,
        Ok(d) => r matches Ok(h) ==> {
            &&& same_decision(h.decision, d)
            &&& pending_outcome_is(h.outcome, h.outcome.outcome_id@, request, d, model_output, output_tokens_est, client_mode, system_one_model)
            &&& turn_recorded(h, request, system_one_model, queue_before.jobs(), queue_after.jobs(), store_before.records(), store_after.records())
        },
    }
}

/// Hot path: route → attach the given model output → pending outcome →
/// enqueue Score → return. Never runs Score.
pub fn complete_turn_hot_path<C: TypesafeClient, Q: ScoreQueue, S: OutcomeStore>(
    router: &Router<'_, C>,
    request: &RouterRequest,
    model_output: &str,
    output_tokens_est: Option<u32>,
    client_mode: ClientMode,
    queue: &mut Q,
    store: &mut S,
) -> (r: Result<HotPathResult, RouterError>)
    ensures
        exists|rr: Result<RouterDecision, RouterError>| {
            &&& #[trigger] route_outcome(*router.catalog, *router.client, router.system_one_model@, *request, rr)
            &&& hot_path_done(rr, *request, router.system_one_model@, model_output@, output_tokens_est, client_mode, *old(queue), *final(queue), *old(store), *final(store), r)
        },
{
    let routing = router.route(request);
    let ghost rr = routing;
    let decision = match routing {
        Ok(d) => d,
        Err(e) => {
            assert(hot_path_done(rr, *request, router.system_one_model@, model_output@, output_tokens_est, client_mode, *old(queue), *queue, *old(store), *store, Err::<HotPathResult, RouterError>(e)));
            return Err(e);
        },
    };
    let ghost d = decision;
    let r = persist_pending_and_enqueue(
        router.system_one_model.as_str(),
        request,
        decision,
        model_output,
        output_tokens_est,
        client_mode,
        queue,
        store,
    );
    proof {
        if r is Ok {
            lemma_turn_recorded(r->Ok_0, *request, router.system_one_model@, d, old(queue).jobs(), queue.jobs(), old(store).records(), store.records());
        }
        assert(hot_path_done(rr, *request, router.system_one_model@, model_output@, output_tokens_est, client_mode, *old(queue), *queue, *old(store), *store, r));
    }
    r
}

/// The hot path's records of a turn: the pending outcome saved under its
/// id, and its Score job (with the result's job id) added to the queue.
pub open spec fn turn_recorded(
    h: HotPathResult,
    request: RouterRequest,
    system_one_model: Seq<char>,
    jobs_before: Multiset<ScoreJob>,
    jobs_after: Multiset<ScoreJob>,
    records_before: Map<Seq<char>, RouteOutcome>,
    records_after: Map<Seq<char>, RouteOutcome>,
) -> bool {
    &&& records_after == records_before.insert(h.outcome.outcome_id@, h.outcome)
    &&& exists|job: ScoreJob| {
        &&& score_job_is(job, h.outcome, system_one_model, request, h.decision)
        &&& job.job_id@ == h.score_job_id@
        &&& jobs_after == jobs_before.insert(job)
    }
}

proof fn lemma_turn_recorded(
    h: HotPathResult,
    request: RouterRequest,
    system_one_model: Seq<char>,
    d: RouterDecision,
    jobs_before: Multiset<ScoreJob>,
    jobs_after: Multiset<ScoreJob>,
    records_before: Map<Seq<char>, RouteOutcome>,
    records_after: Map<Seq<char>, RouteOutcome>,
)
    requires
        same_decision(h.decision, d),
        records_after == records_before.insert(h.outcome.outcome_id@, h.outcome),
        exists|job: ScoreJob| {
            &&& score_job_is(job, h.outcome, system_one_model, request, d)
            &&& job.job_id@ == h.score_job_id@
            &&& jobs_after == jobs_before.insert(job)
        },
    ensures
        turn_recorded(h, request, system_one_model, jobs_before, jobs_after, records_before, records_after),
{
    let job = choose|job: ScoreJob| {
        &&& score_job_is(job, h.outcome, system_one_model, request, d)
        &&& job.job_id@ == h.score_job_id@
        &&& jobs_after == jobs_before.insert(job)
    };
    assert(score_job_is(job, h.outcome, system_one_model, request, h.decision));
}

/// The execution request for a routed turn: the decision's chosen model,
/// the whole session as prompt and as messages, the given working
/// directory, local runtime, no repositories, parameters or timeout.
pub open spec fn execution_request_is(req: CompleteRequest, decision: RouterDecision, request: RouterRequest, cwd: Option<String>) -> bool {
    &&& req.model_id@ == decision.chosen_model@
    &&& req.prompt@ == session_prompt(request.session@)
    &&& req.messages is Some && req.messages.unwrap()@ == request.session@
    &&& req.cwd == cwd
    &&& req.runtime == ModelRuntime::Local
    &&& req.cloud_repos is None
    &&& req.model_params is None
    &&& req.timeout_ms is None
}

/// The request handed to the model provider for a routed turn.
pub fn execution_request(decision: &RouterDecision, request: &RouterRequest, cwd: Option<String>) -> (r: CompleteRequest)
    ensures
        execution_request_is(r, *decision, *request, cwd),
{
    let r = complete_request_from_session(decision.chosen_model.as_str(), request.session.as_slice(), cwd);
    assert(r.model_id@ == decision.chosen_model@);
    r
}

/// What the provider turn does once routing gave `rr`: a routing error is
/// the result and nothing is saved or queued; after a decision, the
/// provider was handed the turn's execution request, its error is the
/// result (nothing saved or queued), and a success holds the decision, the
/// completion's output and output tokens, and the turn's records.
pub open spec fn provider_turn_done<M: ModelProvider, Q: ScoreQueue, S: OutcomeStore>(
    rr: Result<RouterDecision, RouterError>,
    provider: M,
    request: RouterRequest,
    system_one_model: Seq<char>,
    client_mode: ClientMode,
    cwd: Option<String>,
    queue_before: Q,
    queue_after: Q,
    store_before: S,
    store_after: S,
    r: Result<HotPathResult, RouterError>,
) -> bool {
    match rr {
        Err(e) => r == Err::<HotPathResult, RouterError>(e) && queue_after == queue_before && store_after == store_before,
        Ok(d) => exists|req: CompleteRequest, res: Result<CompleteResponse, ModelProviderError>| {
            &&& execution_request_is(req, d, request, cwd)
            &&& #[trigger] provider.completes(req, res)
            &&& match res {
                Err(e) => r == Err::<HotPathResult, RouterError>(RouterError::ModelProvider(e)) && queue_after == queue_before
                    && store_after == store_before,
                Ok(exec) => r matches Ok(h) ==> {
                    &&& same_decision(h.decision, d)
                    &&& pending_outcome_is(h.outcome, h.outcome.outcome_id@, request, d, exec.model_output@, output_tokens_of(exec), client_mode, system_one_model)
                    &&& turn_recorded(h, request, system_one_model, queue_before.jobs(), queue_after.jobs(), store_before.records(), store_after.records())
                },
            }
        },
    }
}

/// Hot path with a model provider: route → run the chosen model → pending
/// outcome → enqueue Score → return.
pub fn complete_turn_with_model_provider<C: TypesafeClient, M: ModelProvider, Q: ScoreQueue, S: OutcomeStore>(
    router: &Router<'_, C>,
    request: &RouterRequest,
    model_provider: &M,
    client_mode: ClientMode,
    queue: &mut Q,
    store: &mut S,
    cwd: Option<String>,
) -> (r: Result<HotPathResult, RouterError>)
    ensures
        exists|rr: Result<RouterDecision, RouterError>| {
            &&& #[trigger] route_outcome(*router.catalog, *router.client, router.system_one_model@, *request, rr)
            &&& provider_turn_done(rr, *model_provider, *request, router.system_one_model@, client_mode, cwd, *old(queue), *final(queue), *old(store), *final(store), r)
        },
{
    let ghost cwd_in = cwd;
    let routing = router.route(request);
    let ghost rr = routing;
    let decision = match routing {
        Ok(d) => d,
        Err(e) => {
            assert(provider_turn_done(rr, *model_provider, *request, router.system_one_model@, client_mode, cwd_in, *old(queue), *queue, *old(store), *store, Err::<HotPathResult, RouterError>(e)));
            return Err(e);
        },
    };
    let ghost d = decision;
    let req = execution_request(&decision, request, cwd);
    let completion = model_provider.complete(&req);
    let ghost res = completion;
    assert(model_provider.completes(req, res));
    let exec = match completion {
        Ok(x) => x,
        Err(e) => {
            let r = Err(RouterError::ModelProvider(e));
            assert(provider_turn_done(rr, *model_provider, *request, router.system_one_model@, client_mode, cwd_in, *old(queue), *queue, *old(store), *store, r));
            return r;
        },
    };
    let tokens = match exec.usage {
        Some(u) => u.output_tokens,
        None => None,
    };
    let r = persist_pending_and_enqueue(
        router.system_one_model.as_str(),
        request,
        decision,
        exec.model_output.as_str(),
        tokens,
        client_mode,
        queue,
        store,
    );
    proof {
        if r is Ok {
            lemma_turn_recorded(r->Ok_0, *request, router.system_one_model@, d, old(queue).jobs(), queue.jobs(), old(store).records(), store.records());
        }
        assert(tokens == output_tokens_of(exec));
        assert(provider_turn_done(rr, *model_provider, *request, router.system_one_model@, client_mode, cwd_in, *old(queue), *queue, *old(store), *store, r));
    }
    r
}

/// The output tokens a completion reports, if it reports usage.
pub open spec fn output_tokens_of(exec: CompleteResponse) -> Option<u32> {
    match exec.usage {
        Some(u) => u.output_tokens,
        None => None,
    }
}

/// The outcome after a Score attempt: the turn unchanged, a score time,
/// and either the parsed rubrics (scored) or the parse error or the client
/// error's message (failed, earlier scores kept).
pub open spec fn score_applied(before: RouteOutcome, result: Result<SystemOneResponse, TypesafeError>, after: RouteOutcome) -> bool {
    &&& same_turn(after, before)
    &&& after.scored_at is Some
    &&& exists|n: nat| after.scored_at.unwrap()@ == decimal(n)
    &&& match result {
        Ok(resp) => exists|p: Result<OutcomeScores, String>| #[trigger] scores_read(resp.answers@, p) && match p {
            Ok(s) => after.scores_status == ScoresStatus::Scored && after.scores == Some(s) && after.score_error is None,
            Err(m) => after.scores_status == ScoresStatus::Failed && after.scores == before.scores
                && after.score_error is Some && after.score_error.unwrap()@ == m@,
        },
        Err(e) => {
            &&& after.scores_status == ScoresStatus::Failed
            &&& after.scores == before.scores
            &&& after.score_error is Some
            &&& after.score_error.unwrap()@ == typesafe_error_text(e)
        },
    }
}

/// `after` is `before` once `job` was scored by `client`: the client was
/// handed the job's Score request, and its result was applied.
pub open spec fn score_run<C: TypesafeClient>(client: C, job: ScoreJob, before: RouteOutcome, after: RouteOutcome) -> bool {
    exists|req: SystemOneRequest, res: Result<SystemOneResponse, TypesafeError>| {
        &&& score_request_is(req, job, job.include_task_fit)
        &&& #[trigger] client.replies(req, res)
        &&& score_applied(before, res, after)
    }
}

/// Records the result of a Score call on an outcome.
pub fn apply_score_result(outcome: &mut RouteOutcome, result: Result<SystemOneResponse, TypesafeError>)
    ensures
        score_applied(*old(outcome), result, *final(outcome)),
{
    match result {
        Ok(response) => {
            let parsed = parse_score_response(&response);
            match parsed {
                Ok(scores) => {
                    outcome.mark_scored_ok(scores);
                },
                Err(e) => {
                    outcome.mark_scored_failed(e.as_str());
                },
            }
        },
        Err(e) => {
            let m = e.message();
            outcome.mark_scored_failed(m.as_str());
        },
    }
}

/// What running `job` against `store_before` gives: a load error is the
/// result and the store is left as it was; a loaded outcome is scored by
/// `client` and saved, and the save's error, or the scored outcome (then
/// stored under its id), is the result.
pub open spec fn score_job_result<C: TypesafeClient, S: OutcomeStore>(
    client: C,
    job: ScoreJob,
    store_before: S,
    store_after: S,
    r: Result<RouteOutcome, RouterError>,
) -> bool {
    exists|loaded: Result<RouteOutcome, RouterError>| {
        &&& #[trigger] store_before.loads(job.outcome_id@, loaded)
        &&& match loaded {
            Err(e) => r == Err::<RouteOutcome, RouterError>(e) && store_after == store_before,
            Ok(before) => {
                &&& store_before.records().contains_key(job.outcome_id@)
                &&& before == store_before.records()[job.outcome_id@]
                &&& exists|after: RouteOutcome, saved: Result<(), RouterError>| {
                    &&& score_run(client, job, before, after)
                    &&& #[trigger] store_before.saves(&store_after, after, saved)
                    &&& match saved {
                        Err(e) => r == Err::<RouteOutcome, RouterError>(e),
                        Ok(()) => r == Ok::<RouteOutcome, RouterError>(after)
                            && store_after.records() == store_before.records().insert(after.outcome_id@, after),
                    }
                }
            },
        }
    }
}

/// Worker step: runs one Score job and saves the patched outcome. Client
/// failures become a failed outcome, not an error.
pub fn run_score_job<C: TypesafeClient, S: OutcomeStore>(client: &C, store: &mut S, job: &ScoreJob) -> (r: Result<RouteOutcome, RouterError>)
    ensures
        score_job_result(*client, *job, *old(store), *final(store), r),
        r matches Ok(o) ==> {
            &&& old(store).records().contains_key(job.outcome_id@)
            &&& score_run(*client, *job, old(store).records()[job.outcome_id@], o)
            &&& final(store).records() == old(store).records().insert(o.outcome_id@, o)
        },
{
    let loaded = store.load(job.outcome_id.as_str());
    let ghost l = loaded;
    let mut outcome = match loaded {
        Ok(o) => o,
        Err(e) => {
            assert(score_job_result(*client, *job, *old(store), *store, Err::<RouteOutcome, RouterError>(e)));
            return Err(e);
        },
    };
    let packed = pack_score_request(job, job.include_task_fit);
    let result = client.system_one(&packed);
    let ghost before = outcome;
    let ghost res = result;
    apply_score_result(&mut outcome, result);
    assert(score_applied(before, res, outcome));
    assert(client.replies(packed, res));
    let saved = store.save(&outcome);
    let ghost sv = saved;
    proof {
        assert(old(store).saves(&*store, outcome, sv));
        assert(score_run(*client, *job, before, outcome));
    }
    match saved {
        Ok(()) => {},
        Err(e) => {
            assert(score_job_result(*client, *job, *old(store), *store, Err::<RouteOutcome, RouterError>(e)));
            return Err(e);
        },
    }
    assert(score_job_result(*client, *job, *old(store), *store, Ok::<RouteOutcome, RouterError>(outcome)));
    Ok(outcome)
}

/// The number of jobs a drain of at most `max` takes from `jobs`.
pub open spec fn drain_count(jobs: Multiset<ScoreJob>, max: usize) -> nat {
    if jobs.len() < max {
        jobs.len()
    } else {
        max as nat
    }
}

/// A run of drain steps from queue `q0` and store `s0`: the queue went
/// through the states `qs`, handing out `taken[i]` from `qs[i]`, and
/// running that job against store state `sts[i]` gave `outs[i]` and left
/// `sts[i + 1]`.
pub open spec fn drain_trace<C: TypesafeClient, Q: ScoreQueue, S: OutcomeStore>(
    client: C,
    q0: Q,
    s0: S,
    qs: Seq<Q>,
    sts: Seq<S>,
    taken: Seq<ScoreJob>,
    outs: Seq<RouteOutcome>,
) -> bool {
    &&& qs.len() == taken.len() + 1
    &&& sts.len() == taken.len() + 1
    &&& outs.len() == taken.len()
    &&& qs[0] == q0
    &&& sts[0] == s0
    &&& forall|i: int|
        #![trigger taken[i]]
        0 <= i < taken.len() ==> {
            &&& qs[i].hands_out(&qs[i + 1], Ok(Some(taken[i])))
            &&& score_job_result(client, taken[i], sts[i], sts[i + 1], Ok(outs[i]))
        }
}

/// What draining at most `max` jobs gives: after a run of steps, either
/// the drain reached `max` or the queue handed out nothing, and the
/// outcomes in the order their jobs were handed out are the result (the
/// taken jobs gone from the queue); or the next dequeue, or the next job's
/// run, failed and its error is the result.
pub open spec fn drain_result<C: TypesafeClient, Q: ScoreQueue, S: OutcomeStore>(
    client: C,
    q0: Q,
    qf: Q,
    s0: S,
    sf: S,
    max: usize,
    r: Result<Vec<RouteOutcome>, RouterError>,
) -> bool {
    exists|qs: Seq<Q>, sts: Seq<S>, taken: Seq<ScoreJob>, outs: Seq<RouteOutcome>| {
        &&& #[trigger] drain_trace(client, q0, s0, qs, sts, taken, outs)
        &&& taken.len() <= max
        &&& match r {
            Ok(v) => {
                &&& v@ == outs
                &&& sf == sts[taken.len() as int]
                &&& if taken.len() == max {
                    qf == qs[taken.len() as int]
                } else {
                    qs[taken.len() as int].hands_out(&qf, Ok(None))
                }
                &&& q0.jobs() == qf.jobs().add(taken.to_multiset())
                &&& v@.len() == drain_count(q0.jobs(), max)
            },
            Err(e) => {
                &&& taken.len() < max
                &&& {
                    ||| qs[taken.len() as int].hands_out(&qf, Err(e)) && sf == sts[taken.len() as int]
                    ||| exists|job: ScoreJob|
                        #[trigger] qs[taken.len() as int].hands_out(&qf, Ok(Some(job)))
                            && score_job_result(client, job, sts[taken.len() as int], sf, Err(e))
                }
            },
        }
    }
}

/// Drains up to `max` jobs from the queue, in the order it hands them out,
/// and scores each one; the first failure stops the drain.
pub fn drain_score_queue<C: TypesafeClient, Q: ScoreQueue, S: OutcomeStore>(
    client: &C,
    queue: &mut Q,
    store: &mut S,
    max: usize,
) -> (r: Result<Vec<RouteOutcome>, RouterError>)
    ensures
        drain_result(*client, *old(queue), *final(queue), *old(store), *final(store), max, r),
{
    let ghost start = queue.jobs();
    let ghost q0 = *queue;
    let ghost s0 = *store;
    let ghost mut taken: Seq<ScoreJob> = Seq::empty();
    let ghost mut qs: Seq<Q> = seq![*queue];
    let ghost mut sts: Seq<S> = seq![*store];
    let mut out: Vec<RouteOutcome> = Vec::new();
    let mut k: usize = 0;
    let mut done = false;
    proof {
        broadcast use vstd::seq_lib::group_to_multiset_ensures;
        broadcast use vstd::multiset::group_multiset_axioms;
        assert(taken.to_multiset().len() == 0);
        assert(taken.to_multiset() =~= Multiset::empty());
        assert(start =~= queue.jobs().add(taken.to_multiset()));
        assert(out@ =~= Seq::<RouteOutcome>::empty());
        assert(drain_trace(*client, q0, s0, qs, sts, taken, out@));
    }
    while k < max && !done
        invariant
            k <= max,
            out@.len() == k,
            taken.len() == k,
            q0 == *old(queue),
            s0 == *old(store),
            start == q0.jobs(),
            start == queue.jobs().add(taken.to_multiset()),
            drain_trace(*client, q0, s0, qs, sts, taken, out@),
            sts[k as int] == *store,
            !done ==> qs[k as int] == *queue,
            done ==> k < max && queue.jobs().len() == 0 && qs[k as int].hands_out(&*queue, Ok(None)),
        decreases max - k + (if done { 0int } else { 1int }),
    {
        proof {
            broadcast use vstd::seq_lib::group_to_multiset_ensures;
            broadcast use vstd::multiset::group_multiset_axioms;
        }
        let ghost jobs_before = queue.jobs();
        let next = queue.dequeue();
        match next {
            Ok(Some(job)) => {
                let ghost q_after = *queue;
                let ran = run_score_job(client, store, &job);
                let o = match ran {
                    Ok(o) => o,
                    Err(e) => {
                        proof {
                            assert(qs[taken.len() as int].hands_out(&*queue, Ok(Some(job))));
                            assert(drain_result(*client, *old(queue), *queue, *old(store), *store, max, Err::<Vec<RouteOutcome>, RouterError>(e)));
                        }
                        return Err(e);
                    },
                };
                proof {
                    assert(jobs_before =~= queue.jobs().insert(job));
                    assert(taken.push(job).to_multiset() =~= taken.to_multiset().insert(job));
                    assert(start =~= queue.jobs().add(taken.push(job).to_multiset()));
                }
                out.push(o);
                proof {
                    let taken2 = taken.push(job);
                    let qs2 = qs.push(q_after);
                    let sts2 = sts.push(*store);
                    assert forall|i: int| #![trigger taken2[i]] 0 <= i < taken2.len() implies {
                        &&& qs2[i].hands_out(&qs2[i + 1], Ok(Some(taken2[i])))
                        &&& score_job_result(*client, taken2[i], sts2[i], sts2[i + 1], Ok(out@[i]))
                    } by {
                        if i < taken.len() {
                            assert(taken2[i] == taken[i]);
                        }
                    }
                    assert(drain_trace(*client, q0, s0, qs2, sts2, taken2, out@));
                    taken = taken2;
                    qs = qs2;
                    sts = sts2;
                }
                k = k + 1;
            },
            Ok(None) => {
                done = true;
            },
            Err(e) => {
                proof {
                    assert(drain_result(*client, *old(queue), *queue, *old(store), *store, max, Err::<Vec<RouteOutcome>, RouterError>(e)));
                }
                return Err(e);
            },
        }
    }
    proof {
        broadcast use vstd::seq_lib::group_to_multiset_ensures;
        broadcast use vstd::multiset::group_multiset_axioms;
        assert(start.len() == queue.jobs().len() + taken.len());
        assert(drain_result(*client, *old(queue), *queue, *old(store), *store, max, Ok::<Vec<RouteOutcome>, RouterError>(out)));
    }
    Ok(out)
}

/// The Score job for an inline lab scoring of a routed turn.
pub fn lab_score_job(
    request: &RouterRequest,
    decision: &RouterDecision,
    model_output: &str,
    typesafe_model: &str,
    include_task_fit: bool,
) -> (job: ScoreJob)
    ensures
        exists|n: nat| job.job_id@ == "lab"@ + "_"@ + decimal(n),
        job.outcome_id@ == "lab"@,
        job.typesafe_model@ == typesafe_model@,
        job.incoming_prompt@ == incoming_prompt(request.session@),
        job.chosen_model@ == decision.chosen_model@,
        job.model_output@ == model_output@,
        job.task_class == request.task_class,
        same_decision(job.decision, *decision),
        job.include_task_fit == include_task_fit,
        exists|n: nat| job.enqueued_at@ == decimal(n),
{
    ScoreJob {
        job_id: new_id("lab"),
        outcome_id: "lab".to_owned(),
        typesafe_model: typesafe_model.to_owned(),
        incoming_prompt: incoming_prompt_from_session(request.session.as_slice()),
        chosen_model: decision.chosen_model.clone(),
        model_output: model_output.to_owned(),
        task_class: request.task_class,
        decision: decision.clone(),
        include_task_fit,
        enqueued_at: unix_timestamp_string(),
    }
}

/// `r` is what a Score call's result gives: the client's error, or the
/// rubrics read from the answers (a reading error as an invalid decision).
pub open spec fn scores_result_is(result: Result<SystemOneResponse, TypesafeError>, r: Result<OutcomeScores, RouterError>) -> bool {
    match result {
        Err(e) => r matches Err(RouterError::Typesafe(f)) && f == e,
        Ok(resp) => exists|p: Result<OutcomeScores, String>| #[trigger] scores_read(resp.answers@, p) && match p {
            Ok(s) => r matches Ok(t) && t == s,
            Err(m) => r matches Err(RouterError::InvalidDecision(n)) && n == m,
        },
    }
}

/// The rubric scores of a Score call: client errors and unreadable answers
/// become router errors.
pub fn scores_from_result(result: Result<SystemOneResponse, TypesafeError>) -> (r: Result<OutcomeScores, RouterError>)
    ensures
        scores_result_is(result, r),
{
    match result {
        Err(e) => Err(RouterError::Typesafe(e)),
        Ok(response) => match parse_score_response(&response) {
            Ok(s) => Ok(s),
            Err(m) => Err(RouterError::InvalidDecision(m)),
        },
    }
}

/// Lab only: scores a routed turn inline (never on the product hot path).
pub fn score_inline_lab_only<C: TypesafeClient>(
    client: &C,
    request: &RouterRequest,
    decision: &RouterDecision,
    model_output: &str,
    typesafe_model: &str,
    include_task_fit: bool,
) -> (r: Result<OutcomeScores, RouterError>)
    ensures
        exists|result: Result<SystemOneResponse, TypesafeError>| scores_result_is(result, r),
{
    let job = lab_score_job(request, decision, model_output, typesafe_model, include_task_fit);
    let packed = pack_score_request(&job, include_task_fit);
    let result = client.system_one(&packed);
    let ghost res = result;
    let r = scores_from_result(result);
    assert(scores_result_is(res, r));
    r
}

/// An in-memory queue's jobs after `js` were enqueued one by one behind
/// `queued` (each `enqueue` pushes at the back).
pub open spec fn after_enqueues(queued: Seq<ScoreJob>, js: Seq<ScoreJob>) -> Seq<ScoreJob>
    decreases js.len(),
{
    if js.len() == 0 {
        queued
    } else {
        after_enqueues(queued, js.drop_last()).push(js.last())
    }
}

/// An in-memory queue's jobs after `k` dequeues from `queued` (each
/// `dequeue` takes the front, and leaves an empty queue as it is).
pub open spec fn after_dequeues(queued: Seq<ScoreJob>, k: nat) -> Seq<ScoreJob>
    decreases k,
{
    if k == 0 {
        queued
    } else {
        let prev = after_dequeues(queued, (k - 1) as nat);
        if prev.len() == 0 {
            prev
        } else {
            prev.drop_first()
        }
    }
}

/// First in, first out over any number of calls: enqueuing `js` one by one
/// behind `queued` leaves `queued + js`; after `k` dequeues the queue is
/// that sequence without its first `k` jobs, so the next dequeue hands out
/// job `k` of it, and once all are out the queue is empty.
pub proof fn lemma_queue_fifo(queued: Seq<ScoreJob>, js: Seq<ScoreJob>, k: nat)
    ensures
        after_enqueues(queued, js) == queued + js,
        k <= (queued + js).len() ==> after_dequeues(queued + js, k) == (queued + js).skip(k as int),
        k >= (queued + js).len() ==> after_dequeues(queued + js, k).len() == 0,
    decreases js.len() + k,
{
    if js.len() > 0 {
        lemma_queue_fifo(queued, js.drop_last(), 0);
        assert(queued + js =~= (queued + js.drop_last()).push(js.last()));
    }
    let all = queued + js;
    if k > 0 {
        lemma_queue_fifo(queued, js, (k - 1) as nat);
        if k <= all.len() {
            assert(all.skip((k - 1) as int).drop_first() =~= all.skip(k as int));
        }
    } else {
        assert(all.skip(0) =~= all);
    }
}

/// The position of the least name (in character order), where a
/// file-backed queue takes its next job; `None` for no names.
pub fn next_job_name(names: &[String]) -> (r: Option<usize>)
    ensures
        names@.len() == 0 <==> r is None,
        r matches Some(i) ==> i < names@.len() && forall|j: int| 0 <= j < names@.len() ==> !str_lt(
            #[trigger] names@[j]@,
            names@[i as int]@,
        ),
{
    if names.len() == 0 {
        return None;
    }
    let mut best: usize = 0;
    let mut i: usize = 1;
    while i < names.len()
        invariant
            0 < i <= names@.len(),
            best < i,
            forall|j: int| 0 <= j < i ==> !str_lt(#[trigger] names@[j]@, names@[best as int]@),
        decreases names@.len() - i,
    {
        if str_less(names[i].as_str(), names[best].as_str()) {
            proof {
                assert forall|j: int| 0 <= j <= i implies !str_lt(#[trigger] names@[j]@, names@[i as int]@) by {
                    if j < i && str_lt(names@[j]@, names@[i as int]@) {
                        lemma_str_lt_transitive(names@[j]@, names@[i as int]@, names@[best as int]@);
                    }
                    if j == i {
                        lemma_str_lt_irreflexive(names@[i as int]@);
                    }
                }
            }
            best = i;
        }
        i = i + 1;
    }
    Some(best)
}

/// The file name a file-backed queue or store keeps a record under.
pub fn record_file_name(id: &str) -> (r: String)
    ensures
        r@ == id@ + ".json"@,
{
    let mut r = id.to_owned();
    r.append(".json");
    r
}

/// The temporary name a record is written under before it is renamed into
/// place.
pub fn record_temp_name(id: &str) -> (r: String)
    ensures
        r@ == id@ + ".json.tmp"@,
{
    let mut r = id.to_owned();
    r.append(".json.tmp");
    r
}

/// A Score attempt always settles an outcome: it is scored or failed, with
/// a score time, and the routed turn itself is unchanged.
pub proof fn lemma_score_attempt_settles(before: RouteOutcome, result: Result<SystemOneResponse, TypesafeError>, after: RouteOutcome)
    requires
        score_applied(before, result, after),
    ensures
        after.scores_status == ScoresStatus::Scored || after.scores_status == ScoresStatus::Failed,
        after.scored_at is Some,
        same_turn(after, before),
        after.scores_status == ScoresStatus::Scored ==> after.scores is Some && after.score_error is None,
        after.scores_status == ScoresStatus::Failed ==> after.score_error is Some && after.scores == before.scores,
{
}

} // verus!
