use typesafe_llm_router::json::Json;
use typesafe_llm_router::keyed_map::KeyedMap;
use typesafe_llm_router::typesafe::api::{Answer, ChoiceQuestion, Question, ScoreQuestion, SystemOneRequest};
use typesafe_llm_router::typesafe::stub::stub_score_answer;
use typesafe_llm_router::{StubTypesafeClient, TypesafeClient, TypesafeError};
use typesafe_llm_router::score::{pack_score_request, parse_score_response};
use typesafe_llm_router::{CacheHypothesis, DecisionReason, PrefixReuse, RouterDecision, ScoreJob, WhyTradeoff};

fn obj(members: Vec<(&str, Json)>) -> Json {
    Json::Object(members.into_iter().map(|(k, v)| (k.to_string(), v)).collect())
}

fn route_question(options: &[&str]) -> Question {
    let mut criteria = KeyedMap::new();
    for o in options {
        criteria.insert(o.to_string(), None);
    }
    Question::Choice(ChoiceQuestion { instructions: "pick".into(), criteria })
}

fn row(id: &str, tier: &str, tools: bool) -> Json {
    obj(vec![("model_id", Json::Str(id.into())), ("tier", Json::Str(tier.into())), ("tool_capable", Json::Bool(tools))])
}

fn state(task: &str, tools: bool, rows: Vec<Json>) -> Json {
    obj(vec![
        ("current_model", Json::Null),
        ("signals", obj(vec![("task_class", Json::Str(task.into())), ("tools_required", Json::Bool(tools))])),
        ("candidates", Json::Array(rows)),
    ])
}

fn ask(client: &StubTypesafeClient, state: Json, questions: KeyedMap<Question>) -> Result<typesafe_llm_router::typesafe::api::SystemOneResponse, TypesafeError> {
    client.system_one(&SystemOneRequest { state, model: "jev-latest".into(), questions })
}

#[test]
fn stub_prefers_the_task_tier_with_tools() {
    let mut qs = KeyedMap::new();
    qs.insert("route_to".into(), route_question(&["a-frontier", "b-frontier", "c-mid"]));
    let rows = vec![row("a-frontier", "T-frontier", false), row("b-frontier", "T-frontier", true), row("c-mid", "T-mid", true)];
    let resp = ask(&StubTypesafeClient::new(), state("tool-use", true, rows), qs).unwrap();
    match resp.answers.get("route_to") {
        Some(Answer::Choice(c)) => {
            assert_eq!(c.choice, "b-frontier");
            assert_eq!(c.probabilities.get("b-frontier"), Some(&700_000));
            assert_eq!(c.probabilities.get("a-frontier"), Some(&150_000));
        }
        other => panic!("unexpected {other:?}"),
    }
    match resp.answers.get("primary_reason") {
        Some(Answer::Choice(c)) => {
            assert_eq!(c.choice, "quality");
            assert_eq!(c.probabilities.get("quality"), Some(&800_000));
            assert_eq!(c.confidence, 700_000);
        }
        other => panic!("unexpected {other:?}"),
    }
    assert_eq!(resp.usage.unwrap().input_tokens, 128);
}

#[test]
fn stub_falls_back_to_first_option_and_cost() {
    let mut qs = KeyedMap::new();
    qs.insert("route_to".into(), route_question(&["zeta", "alpha"]));
    let resp = ask(&StubTypesafeClient::new(), obj(vec![]), qs).unwrap();
    match resp.answers.get("route_to") {
        Some(Answer::Choice(c)) => assert_eq!(c.choice, "alpha"),
        other => panic!("unexpected {other:?}"),
    }
    match resp.answers.get("primary_reason") {
        Some(Answer::Choice(c)) => assert_eq!(c.choice, "cost"),
        other => panic!("unexpected {other:?}"),
    }
}

#[test]
fn stub_errors_without_questions_it_can_answer() {
    let err = ask(&StubTypesafeClient::new(), obj(vec![]), KeyedMap::new()).unwrap_err();
    assert_eq!(err, TypesafeError::UnexpectedAnswer("stub: no Choice or Score questions to answer".into()));
    let mut qs = KeyedMap::new();
    qs.insert("route_to".into(), route_question(&[]));
    let err = ask(&StubTypesafeClient::new(), obj(vec![]), qs).unwrap_err();
    assert_eq!(err, TypesafeError::UnexpectedAnswer("route_to Choice has no options".into()));
    let mut qs = KeyedMap::new();
    qs.insert("route_to".into(), Question::Score(ScoreQuestion { instructions: "x".into(), criteria: vec![] }));
    let err = ask(&StubTypesafeClient::new(), obj(vec![]), qs).unwrap_err();
    assert_eq!(err, TypesafeError::UnexpectedAnswer("route_to must be a Choice".into()));
}

#[test]
fn stub_score_answer_levels() {
    let criteria: Vec<String> = ["w", "p", "c", "r"].iter().map(|s| s.to_string()).collect();
    match stub_score_answer("quality", &criteria) {
        Answer::Score(s) => {
            assert_eq!(s.score, 2_000_000);
            assert_eq!(s.probabilities.get("2"), Some(&750_000));
            assert_eq!(s.probabilities.get("0"), Some(&83_333));
            assert_eq!(s.legend.get("3").map(|t| t.as_str()), Some("r"));
            assert_eq!(s.confidence, 720_000);
            assert_eq!(s.legend.len(), 4);
        }
        other => panic!("unexpected {other:?}"),
    }
    match stub_score_answer("other", &[]) {
        Answer::Score(s) => {
            assert_eq!(s.score, 0);
            assert_eq!(s.legend.get("0").map(|t| t.as_str()), Some("level_0"));
            assert_eq!(s.probabilities.get("0"), Some(&750_000));
        }
        other => panic!("unexpected {other:?}"),
    }
}

#[test]
fn stub_scores_every_packed_rubric() {
    let decision = RouterDecision {
        chosen_model: "m".into(),
        chosen_tier: None,
        primary_reason: DecisionReason::Unspecified,
        alternatives_considered: vec![],
        cache_hypothesis: CacheHypothesis { strength: PrefixReuse::Weak, rationale: "r".into() },
        rough_cost_note: "c".into(),
        confidence: None,
        open_risk: None,
        model: "m".into(),
        why: WhyTradeoff { primary: DecisionReason::Unspecified, summary: "s".into(), confidence: None, probabilities: None },
    };
    let job = ScoreJob {
        job_id: "j".into(),
        outcome_id: "o".into(),
        typesafe_model: "".into(),
        incoming_prompt: "p".into(),
        chosen_model: "m".into(),
        model_output: "out".into(),
        task_class: None,
        decision,
        include_task_fit: true,
        enqueued_at: "0".into(),
    };
    let packed = pack_score_request(&job, true);
    let response = StubTypesafeClient::new().system_one(&packed).unwrap();
    let scores = parse_score_response(&response).unwrap();
    assert_eq!(scores.quality.as_ref().unwrap().score, 2_000_000);
    assert_eq!(scores.instruction_follow.as_ref().unwrap().score, 2_000_000);
    assert_eq!(scores.task_fit.as_ref().unwrap().score, 1_000_000);
    assert_eq!(scores.task_fit.as_ref().unwrap().legend.get("2").map(|s| s.as_str()), Some("Strong task match"));
}
