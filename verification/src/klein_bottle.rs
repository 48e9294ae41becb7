//! The reflection loop: an answer is criticised and rewritten until its
//! score reaches a threshold or the rounds run out.

use crate::config::{find_model, model_views, Config, ModelConfig};
use crate::error::{AppError, ErrorKind};
use crate::temperature::{clamp, decimal_millis, parse_millis};
use crate::text::{chars_of, push_str, string_of, trim, trim_chars};
use vstd::prelude::*;

verus! {

/// How the loop runs. Scores and the threshold are held in thousandths.
#[derive(Debug)]
pub struct KleinBottleConfig {
    pub max_iterations: usize,
    pub convergence_threshold: u32,
    pub reflection_prompt_template: String,
    pub evaluation_prompt_template: String,
    pub model_name: String,
    pub timeout_secs: u64,
}

impl Default for KleinBottleConfig {
    fn default() -> (r: Self)
        ensures
            r.max_iterations == 3,
            r.convergence_threshold == 800,
            r.model_name@ == "glm-4.6"@,
            r.timeout_secs == 60,
    {
        KleinBottleConfig {
            max_iterations: 3,
            convergence_threshold: 800,
            reflection_prompt_template: "请从逻辑、事实和创造性三个角度批判上文，并撰写一个更完善的版本。保持回答的核心观点，但增强其深度、严谨性和创新性。".to_owned(),
            evaluation_prompt_template: "请对以下回答进行评分（0-1分），评估其在逻辑性、事实准确性和创造性方面的综合质量。只需返回一个数字分数。".to_owned(),
            model_name: "glm-4.6".to_owned(),
            timeout_secs: 60,
        }
    }
}

/// One round of the loop.
#[derive(Debug)]
pub struct ReflectionIteration {
    pub iteration_number: usize,
    pub input: String,
    pub output: String,
    pub reflection_prompt: String,
    pub evaluation_score: Option<u32>,
    pub reasoning: Option<String>,
    pub timestamp: String,
}

/// What the loop gave.
#[derive(Debug)]
pub struct KleinBottleResult {
    pub initial_question: String,
    pub final_answer: String,
    pub iterations: Vec<ReflectionIteration>,
    pub total_iterations: usize,
    pub converged: bool,
    pub final_score: Option<u32>,
    pub execution_time_ms: u64,
}

/// The loop over one model.
#[derive(Debug)]
pub struct KleinBottleWorkflow {
    pub config: KleinBottleConfig,
    pub model_config: ModelConfig,
}

/// What follows a round.
#[derive(Clone, Copy, Debug, PartialEq, Eq, Structural)]
pub enum ReflectionDecision {
    /// The score reached the threshold: the loop ends, converged.
    Converged,
    /// Another round follows.
    Continue,
    /// That was the last round.
    Exhausted,
}

/// What follows round `round` of `max`, scored `score`.
pub open spec fn decision(score: Option<u32>, threshold: u32, round: usize, max: usize)
    -> ReflectionDecision {
    if score is Some && score->0 >= threshold {
        ReflectionDecision::Converged
    } else if round >= max {
        ReflectionDecision::Exhausted
    } else {
        ReflectionDecision::Continue
    }
}

/// The score that a reply gives: its numeral, brought into the range from 0
/// to 1, and one half where it holds no numeral.
pub open spec fn score_of(reply: Seq<char>) -> u32 {
    match decimal_millis(trim(reply)) {
        Some(m) => clamp(m, 0, 1000) as u32,
        None => 500,
    }
}

pub open spec fn model_missing_text(name: Seq<char>) -> Seq<char> {
    "Model '"@ + name + "' not found in configuration"@
}

impl KleinBottleWorkflow {
    /// The loop over the model that the configuration names.
    pub fn new(config: KleinBottleConfig, global_config: &Config) -> (r: Result<Self, AppError>)
        ensures
            match r {
                Ok(w) => find_model(model_views(global_config.model@), config.model_name@, 0)
                    == Some(w.model_config@) && w.config == config,
                Err(e) => find_model(model_views(global_config.model@), config.model_name@, 0)
                    is None && e@.kind == ErrorKind::ModelNotFound && e@.detail
                    == model_missing_text(config.model_name@),
            },
    {
        match global_config.get_model(config.model_name.as_str()) {
            Some(m) => {
                let model_config = ModelConfig {
                    name: m.name.clone(),
                    api_base: m.api_base.clone(),
                    api_key: m.api_key.clone(),
                    auto_temperature: m.auto_temperature,
                    temperature: m.temperature,
                };
                Ok(KleinBottleWorkflow { config, model_config })
            },
            None => {
                let mut out: Vec<char> = Vec::new();
                push_str(&mut out, "Model '");
                push_str(&mut out, config.model_name.as_str());
                push_str(&mut out, "' not found in configuration");
                Err(AppError::ModelNotFound(string_of(&out)))
            },
        }
    }

    /// Reads the score out of the reply to the evaluation prompt.
    pub fn parse_score(reply: &str) -> (s: u32)
        ensures
            s == score_of(reply@),
            s <= 1000,
    {
        let v = chars_of(reply);
        let w = trim_chars(&v);
        let t = string_of(&w);
        match parse_millis(t.as_str()) {
            Some(m) => if m < 0 {
                0
            } else if m > 1000 {
                1000
            } else {
                m as u32
            },
            None => 500,
        }
    }

    /// Decides what follows a round.
    pub fn after_round(&self, round: usize, score: Option<u32>) -> (d: ReflectionDecision)
        ensures
            d == decision(
                score,
                self.config.convergence_threshold,
                round,
                self.config.max_iterations,
            ),
    {
        let reached = match score {
            Some(s) => s >= self.config.convergence_threshold,
            None => false,
        };
        if reached {
            ReflectionDecision::Converged
        } else if round >= self.config.max_iterations {
            ReflectionDecision::Exhausted
        } else {
            ReflectionDecision::Continue
        }
    }

    /// The prompt that asks for a better version of the answer before.
    pub fn reflection_prompt(&self, previous_answer: &str) -> (s: String)
        ensures
            s@ == self.config.reflection_prompt_template@ + "\n\n前文：\n"@ + previous_answer@,
    {
        let mut out: Vec<char> = Vec::new();
        push_str(&mut out, self.config.reflection_prompt_template.as_str());
        push_str(&mut out, "\n\n前文：\n");
        push_str(&mut out, previous_answer);
        string_of(&out)
    }

    /// The prompt that asks for a score of an answer.
    pub fn evaluation_prompt(&self, answer: &str) -> (s: String)
        ensures
            s@ == self.config.evaluation_prompt_template@ + "\n\n回答内容：\n"@ + answer@,
    {
        let mut out: Vec<char> = Vec::new();
        push_str(&mut out, self.config.evaluation_prompt_template.as_str());
        push_str(&mut out, "\n\n回答内容：\n");
        push_str(&mut out, answer);
        string_of(&out)
    }
}

/// The instruction of the demo configuration for rewriting an answer.
pub open spec fn demo_reflection_template() -> Seq<char> {
    "请从逻辑、事实和创造性三个角度批判上文，并撰写一个更完善的版本。保持回答的核心观点，但增强其深度、严谨性和创新性。"@
}

/// The instruction of the demo configuration for scoring an answer; it
/// ends with an example of the number that is asked for.
pub open spec fn demo_evaluation_template() -> Seq<char> {
    "请对以下回答进行评分（0-1分），评估其在逻辑性、事实准确性和创造性方面的综合质量。只需返回一个数字分数，如：0.85"@
}

/// A configuration to try the loop with: three rounds, a threshold of 0.8,
/// the model `glm-4.6`, a minute for each call, and the two demo
/// instructions.
pub fn create_demo_config() -> (r: KleinBottleConfig)
    ensures
        r.max_iterations == 3,
        r.convergence_threshold == 800,
        r.reflection_prompt_template@ == demo_reflection_template(),
        r.evaluation_prompt_template@ == demo_evaluation_template(),
        r.model_name@ == "glm-4.6"@,
        r.timeout_secs == 60,
{
    KleinBottleConfig {
        max_iterations: 3,
        convergence_threshold: 800,
        reflection_prompt_template: "请从逻辑、事实和创造性三个角度批判上文，并撰写一个更完善的版本。保持回答的核心观点，但增强其深度、严谨性和创新性。".to_owned(),
        evaluation_prompt_template: "请对以下回答进行评分（0-1分），评估其在逻辑性、事实准确性和创造性方面的综合质量。只需返回一个数字分数，如：0.85".to_owned(),
        model_name: "glm-4.6".to_owned(),
        timeout_secs: 60,
    }
}

/// The questions to try the loop with.
pub open spec fn demo_questions() -> Seq<Seq<char>> {
    seq![
        "意识的本质是什么？"@,
        "人工智能是否能够真正理解情感？"@,
        "时间的本质是什么？它是否是客观存在的？"@,
        "人类自由意志的存在性及其哲学意义"@,
        "数学真理是发现还是发明的？"@,
    ]
}

pub open spec fn literal_views(v: Seq<&'static str>) -> Seq<Seq<char>> {
    Seq::new(v.len(), |i: int| v[i]@)
}

/// Some questions to try the loop with.
pub fn get_demo_questions() -> (r: Vec<&'static str>)
    ensures
        literal_views(r@) == demo_questions(),
{
    let mut r: Vec<&'static str> = Vec::new();
    r.push("意识的本质是什么？");
    r.push("人工智能是否能够真正理解情感？");
    r.push("时间的本质是什么？它是否是客观存在的？");
    r.push("人类自由意志的存在性及其哲学意义");
    r.push("数学真理是发现还是发明的？");
    assert(literal_views(r@) =~= demo_questions());
    r
}

/// The loop ends with the round in which the score reaches the threshold,
/// and no later than the last round.
pub proof fn law_reflection_ends(score: Option<u32>, threshold: u32, round: usize, max: usize)
    ensures
        score is Some && score->0 >= threshold ==> decision(score, threshold, round, max)
            == ReflectionDecision::Converged,
        round >= max ==> decision(score, threshold, round, max) != ReflectionDecision::Continue,
{
}

} // verus!
