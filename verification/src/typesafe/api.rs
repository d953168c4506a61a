//! Request and response bodies of the System One evaluation endpoint.
//!
//! Probabilities, confidences and scores are fixed-point millionths.

use vstd::prelude::*;

use crate::json::Json;
use crate::keyed_map::KeyedMap;

verus! {

/// Request body: the state to evaluate, the System One model alias, and
/// named typed questions (answers come back under the same names).
#[derive(Debug, PartialEq)]
pub struct SystemOneRequest {
    pub state: Json,
    pub model: String,
    pub questions: KeyedMap<Question>,
}

/// One of the three question primitives.
#[derive(Debug, PartialEq)]
pub enum Question {
    Choice(ChoiceQuestion),
    Score(ScoreQuestion),
    Noul(NoulQuestion),
}

#[derive(Debug, PartialEq)]
pub struct ChoiceQuestion {
    pub instructions: String,
    /// Option id → rubric description (`None` when no extra detail).
    pub criteria: KeyedMap<Option<String>>,
}

#[derive(Debug, PartialEq)]
pub struct ScoreQuestion {
    pub instructions: String,
    /// Levels, lowest first.
    pub criteria: Vec<String>,
}

#[derive(Debug, PartialEq)]
pub struct NoulQuestion {
    pub instructions: String,
    pub criteria: Option<NoulCriteria>,
}

#[derive(Debug, PartialEq)]
pub struct NoulCriteria {
    pub true_desc: Option<String>,
    pub false_desc: Option<String>,
}

/// Response body.
#[derive(Debug, PartialEq)]
pub struct SystemOneResponse {
    pub model: String,
    pub answers: KeyedMap<Answer>,
    pub usage: Option<Usage>,
}

#[derive(Debug, PartialEq)]
pub enum Answer {
    Choice(ChoiceAnswer),
    Score(ScoreAnswer),
    Noul(NoulAnswer),
}

#[derive(Debug, PartialEq)]
pub struct ChoiceAnswer {
    pub choice: String,
    /// Option id → probability (millionths).
    pub probabilities: KeyedMap<u32>,
    /// Confidence (millionths).
    pub confidence: u32,
}

#[derive(Debug, PartialEq)]
pub struct ScoreAnswer {
    /// Expected level (millionths; `2_100_000` is level 2.1).
    pub score: u64,
    /// Level index → level text.
    pub legend: KeyedMap<String>,
    /// Level index → probability (millionths).
    pub probabilities: KeyedMap<u32>,
    /// Confidence (millionths).
    pub confidence: u32,
}

#[derive(Debug, PartialEq)]
pub struct NoulAnswer {
    /// Answer value (millionths).
    pub noul: i64,
}

#[derive(Debug, Clone, Copy, PartialEq, Eq)]
pub struct Usage {
    pub input_tokens: u64,
    pub output_tokens: u64,
}

/// The `Debug` rendering of an answer (`format!("{:?}")`), for error
/// messages; its text is not specified.
#[verifier::external_body]
pub(crate) fn answer_debug_text(a: &Answer) -> String {
    format!("{a:?}")
}

} // verus!
