//! The decisions of the parallel LLM executor: whether a failed evaluation
//! is tried again and how long the retries may wait, what context and
//! prompt a rule is evaluated with, which inputs a rule gets from the
//! values known so far, and when running by levels stops.  Sending the
//! requests, waiting and timing them happens outside the library.

use vstd::prelude::*;
use crate::engine::dag::{copy_strings, strings_view};
use crate::json::{members_view, Json, SpecJson};
use crate::llm::metadata::RuleMetadata;
use crate::llm::prompt::{
    infos_view, lemma_value_index_bounds, opt_view, value_index, value_of, values_view, AttributeInfo, InputValue,
    PromptBuilder, RuleEvaluationContext, SpecAttributeInfo, SpecInputValue, SpecRuleContext, built_prompt,
    OutputFormatInstructions,
};
use crate::farmscript::token::{decimal_nat, nat_to_chars};
use crate::text::{
    contains_seq, contains_str, push_chars, push_str, str_chars, str_to_lowercase, string_from_chars, unicode_lowercase,
};

verus! {

// ---------------------------------------------------------------------------
// Retrying
// ---------------------------------------------------------------------------

/// An error of an evaluation, as the retry decision reads it: an internal
/// error (network, rate limit, server, timeout...) with its message, or
/// another error with its message.
#[derive(Debug, Clone)]
pub enum EvaluationError {
    Internal(String),
    Other(String),
}

/// The phrases of an internal error message that make it worth retrying.
pub open spec fn retryable_phrases() -> Seq<Seq<char>> {
    seq![
        "network"@,
        "rate limit"@,
        "429"@,
        "server error"@,
        "500"@,
        "502"@,
        "503"@,
        "504"@,
        "timeout"@,
        "connection"@,
        "dns"@,
    ]
}

/// Whether an error is worth retrying: an internal error whose lower-cased
/// message holds one of the retryable phrases.
pub open spec fn retryable(err: EvaluationError) -> bool {
    match err {
        EvaluationError::Internal(msg) => exists|i: int|
            0 <= i < retryable_phrases().len() && contains_seq(
                unicode_lowercase(msg@),
                #[trigger] retryable_phrases()[i],
            ),
        EvaluationError::Other(_) => false,
    }
}

/// Whether an error is worth retrying (see [`retryable`]): network and
/// server errors, rate limits and timeouts are; parse, configuration and
/// other errors are not.
pub fn is_error_retryable(err: &EvaluationError) -> (r: bool)
    ensures
        r == retryable(*err),
{
    match err {
        EvaluationError::Internal(msg) => {
            let lowered = str_to_lowercase(msg.as_str());
            let t = str_chars(lowered.as_str());
            let l = t.as_slice();
            let patterns: Vec<&str> = vec![
                "network",
                "rate limit",
                "429",
                "server error",
                "500",
                "502",
                "503",
                "504",
                "timeout",
                "connection",
                "dns",
            ];
            assert(patterns@.map_values(|p: &str| p@) =~= retryable_phrases());
            let mut i: usize = 0;
            while i < patterns.len()
                invariant
                    0 <= i <= patterns@.len(),
                    patterns@.map_values(|p: &str| p@) == retryable_phrases(),
                    *err == EvaluationError::Internal(*msg),
                    l@ == unicode_lowercase(msg@),
                    forall|k: int| 0 <= k < i ==> !contains_seq(l@, #[trigger] retryable_phrases()[k]),
                decreases patterns@.len() - i,
            {
                assert(retryable_phrases()[i as int] == patterns@[i as int]@);
                if contains_str(l, patterns[i]) {
                    assert(contains_seq(unicode_lowercase(msg@), retryable_phrases()[i as int]));
                    return true;
                }
                i = i + 1;
            }
            false
        },
        EvaluationError::Other(_) => false,
    }
}

/// The retry loop of one rule: its attempts, the time waited between them
/// and the last error seen.
///
/// An evaluation is attempted; after a failure worth retrying (or a
/// timeout) another attempt is made while attempts are left and the wait
/// before it keeps the total waiting within the budget.
#[derive(Debug)]
pub struct RetryLoop {
    max_retries: u32,
    max_total_backoff_ms: u64,
    attempt: u32,
    retry_count: u32,
    total_backoff_ms: u64,
    last_error: Option<String>,
}

/// Model of a [`RetryLoop`].
pub struct SpecRetryLoop {
    pub max_retries: u32,
    pub max_total_backoff_ms: u64,
    pub attempt: u32,
    pub retry_count: u32,
    pub total_backoff_ms: u64,
    pub last_error: Option<Seq<char>>,
}

impl View for RetryLoop {
    type V = SpecRetryLoop;

    closed spec fn view(&self) -> SpecRetryLoop {
        SpecRetryLoop {
            max_retries: self.max_retries,
            max_total_backoff_ms: self.max_total_backoff_ms,
            attempt: self.attempt,
            retry_count: self.retry_count,
            total_backoff_ms: self.total_backoff_ms,
            last_error: opt_view(self.last_error),
        }
    }
}

/// What the loop keeps true: the attempts stay within the retries allowed,
/// the waiting within its budget, and the retries counted are the attempts
/// after the first.
pub open spec fn retry_loop_ok(s: SpecRetryLoop) -> bool {
    &&& s.attempt <= s.max_retries
    &&& s.total_backoff_ms <= s.max_total_backoff_ms
    &&& s.retry_count == s.attempt
}

impl RetryLoop {
    /// The loop before its first attempt.
    pub fn new(max_retries: u32, max_total_backoff_ms: u64) -> (r: Self)
        ensures
            r@ == (SpecRetryLoop {
                max_retries,
                max_total_backoff_ms,
                attempt: 0,
                retry_count: 0,
                total_backoff_ms: 0,
                last_error: None,
            }),
            retry_loop_ok(r@),
    {
        RetryLoop { max_retries, max_total_backoff_ms, attempt: 0, retry_count: 0, total_backoff_ms: 0, last_error: None }
    }

    /// The attempt about to run or running (0 for the first).
    pub fn attempt(&self) -> (n: u32)
        ensures
            n == self@.attempt,
    {
        self.attempt
    }

    /// The retries made so far.
    pub fn retry_count(&self) -> (n: u32)
        ensures
            n == self@.retry_count,
    {
        self.retry_count
    }

    /// The time waited between attempts so far.
    pub fn total_backoff_ms(&self) -> (n: u64)
        ensures
            n == self@.total_backoff_ms,
    {
        self.total_backoff_ms
    }

    /// The last error seen, if any.
    pub fn last_error(&self) -> (r: Option<&str>)
        ensures
            match r {
                Some(e) => self@.last_error == Some(e@),
                None => self@.last_error is None,
            },
    {
        match &self.last_error {
            Some(e) => Some(e.as_str()),
            None => None,
        }
    }

    /// Record the failure of the current attempt (an error worth retrying,
    /// or a timeout) by its message.
    pub fn record_failure(&mut self, message: String)
        ensures
            final(self)@ == (SpecRetryLoop { last_error: Some(message@), ..old(self)@ }),
    {
        self.last_error = Some(message);
    }

    /// Whether another attempt may follow the current one, and if so start
    /// it: it does when an attempt is left and waiting `backoff_ms` before
    /// it keeps the total waiting within the budget; the wait is then
    /// counted and the attempt becomes a retry.
    pub fn begin_retry(&mut self, backoff_ms: u64) -> (r: bool)
        requires
            retry_loop_ok(old(self)@),
        ensures
            retry_loop_ok(final(self)@),
            r == (old(self)@.attempt < old(self)@.max_retries && old(self)@.total_backoff_ms + backoff_ms
                <= old(self)@.max_total_backoff_ms),
            r ==> final(self)@ == (SpecRetryLoop {
                attempt: (old(self)@.attempt + 1) as u32,
                retry_count: (old(self)@.attempt + 1) as u32,
                total_backoff_ms: (old(self)@.total_backoff_ms + backoff_ms) as u64,
                ..old(self)@
            }),
            !r ==> final(self)@ == old(self)@,
    {
        if self.attempt >= self.max_retries {
            return false;
        }
        if backoff_ms > self.max_total_backoff_ms - self.total_backoff_ms {
            return false;
        }
        self.attempt = self.attempt + 1;
        self.retry_count = self.attempt;
        self.total_backoff_ms = self.total_backoff_ms + backoff_ms;
        true
    }
}

/// The attempts a loop makes at most: the first and one per retry.
pub proof fn lemma_retry_bounds(s: SpecRetryLoop)
    requires
        retry_loop_ok(s),
    ensures
        s.retry_count <= s.max_retries,
        s.total_backoff_ms <= s.max_total_backoff_ms,
{
}

/// The message recorded when an attempt runs out of time.
pub open spec fn timeout_text(timeout_ms: u64) -> Seq<char> {
    "Timeout after "@ + decimal_nat(timeout_ms as nat) + "ms"@
}

/// The message recorded when an attempt runs out of time (see
/// [`timeout_text`]).
pub fn timeout_message(timeout_ms: u64) -> (r: String)
    ensures
        r@ == timeout_text(timeout_ms),
{
    let mut out: Vec<char> = Vec::new();
    push_str(&mut out, "Timeout after ");
    let digits = nat_to_chars(timeout_ms);
    push_chars(&mut out, digits.as_slice());
    push_str(&mut out, "ms");
    string_from_chars(out.as_slice())
}

// ---------------------------------------------------------------------------
// Results
// ---------------------------------------------------------------------------

/// Result of a single LLM rule evaluation
#[derive(Debug)]
pub struct LlmRuleResult {
    /// Rule identifier
    pub rule_id: String,
    /// Computed output values
    pub outputs: Vec<(String, Json)>,
    /// Total execution time in milliseconds (including retries)
    pub execution_time_ms: u64,
    /// Whether evaluation succeeded
    pub success: bool,
    /// Error message if failed
    pub error: Option<String>,
    /// Number of retry attempts made
    pub retry_count: u32,
}

impl LlmRuleResult {
    /// The result of a rule whose evaluation gave `outputs`.
    pub fn succeeded(rule_id: &str, outputs: Vec<(String, Json)>, execution_time_ms: u64, attempts: &RetryLoop) -> (r:
        Self)
        ensures
            r.rule_id@ == rule_id@,
            r.outputs == outputs,
            r.execution_time_ms == execution_time_ms,
            r.success,
            r.error is None,
            r.retry_count == attempts@.retry_count,
    {
        LlmRuleResult {
            rule_id: rule_id.to_owned(),
            outputs,
            execution_time_ms,
            success: true,
            error: None,
            retry_count: attempts.retry_count(),
        }
    }

    /// The result of a rule whose evaluation failed: with `error` when it
    /// failed with an error not worth retrying, else with the last error
    /// the attempts saw.
    pub fn failed(rule_id: &str, error: Option<String>, execution_time_ms: u64, attempts: &RetryLoop) -> (r: Self)
        ensures
            r.rule_id@ == rule_id@,
            r.outputs@.len() == 0,
            r.execution_time_ms == execution_time_ms,
            !r.success,
            opt_view(r.error) == match error {
                Some(e) => Some(e@),
                None => attempts@.last_error,
            },
            r.retry_count == attempts@.retry_count,
    {
        let error = match error {
            Some(e) => Some(e),
            None => match attempts.last_error() {
                Some(e) => Some(e.to_owned()),
                None => None,
            },
        };
        LlmRuleResult {
            rule_id: rule_id.to_owned(),
            outputs: Vec::new(),
            execution_time_ms,
            success: false,
            error,
            retry_count: attempts.retry_count(),
        }
    }
}

/// The first failed result, if any.
pub open spec fn first_failure_index(results: Seq<LlmRuleResult>, k: int) -> int
    decreases results.len() - k,
{
    if k < 0 || k >= results.len() {
        results.len() as int
    } else if !results[k].success {
        k
    } else {
        first_failure_index(results, k + 1)
    }
}

/// When running by levels stops after a level: when failures stop the run
/// and one of the level's rules failed, the id of the first that did.
pub fn failure_stopping_run(results: &Vec<LlmRuleResult>, continue_on_error: bool) -> (r: Option<String>)
    ensures
        match r {
            Some(id) => !continue_on_error && first_failure_index(results@, 0) < results@.len() && id@
                == results@[first_failure_index(results@, 0)].rule_id@,
            None => continue_on_error || first_failure_index(results@, 0) == results@.len(),
        },
{
    if continue_on_error {
        return None;
    }
    let mut k: usize = 0;
    while k < results.len()
        invariant
            0 <= k <= results@.len(),
            !continue_on_error,
            first_failure_index(results@, 0) == first_failure_index(results@, k as int),
        decreases results@.len() - k,
    {
        if !results[k].success {
            assert(first_failure_index(results@, k as int) == k);
            let id = results[k].rule_id.clone();
            assert(id@ == results@[k as int].rule_id@);
            return Some(id);
        }
        k = k + 1;
    }
    None
}

// ---------------------------------------------------------------------------
// What a rule is evaluated with
// ---------------------------------------------------------------------------

impl AttributeInfo {
    /// A copy of the attribute.
    pub fn duplicate(&self) -> (a: AttributeInfo)
        ensures
            a@ == self@,
    {
        let examples = copy_strings(&self.examples);
        let a = AttributeInfo {
            name: self.name.clone(),
            description: self.description.clone(),
            data_type: self.data_type.clone(),
            examples,
            constraints: self.constraints.clone(),
        };
        assert(a@.examples =~= self@.examples) by {
            assert(strings_view(examples@) == strings_view(self.examples@));
            assert(a@.examples =~= strings_view(examples@));
            assert(self@.examples =~= strings_view(self.examples@));
        }
        a
    }
}

/// The evaluation context of a rule: its metadata and the values of its
/// inputs.
pub open spec fn eval_context_of(m: RuleMetadata, values: Seq<(Seq<char>, SpecInputValue)>) -> SpecRuleContext {
    SpecRuleContext {
        rule_name: m.name@,
        rule_description: opt_view(m.description),
        rule_type: opt_view(m.rule_type),
        inputs: infos_view(m.inputs@),
        outputs: infos_view(m.outputs@),
        input_values: values,
        additional_context: None,
        product_name: opt_view(m.product_name),
    }
}

fn copy_infos(v: &Vec<AttributeInfo>) -> (r: Vec<AttributeInfo>)
    ensures
        infos_view(r@) == infos_view(v@),
{
    let mut r: Vec<AttributeInfo> = Vec::new();
    let mut i: usize = 0;
    while i < v.len()
        invariant
            0 <= i <= v@.len(),
            r@.len() == i,
            forall|k: int| 0 <= k < i ==> (#[trigger] r@[k])@ == v@[k]@,
        decreases v@.len() - i,
    {
        r.push(v[i].duplicate());
        i = i + 1;
    }
    assert(infos_view(r@) =~= infos_view(v@));
    r
}

fn copy_values(v: &Vec<(String, InputValue)>) -> (r: Vec<(String, InputValue)>)
    ensures
        values_view(r@) == values_view(v@),
{
    let mut r: Vec<(String, InputValue)> = Vec::new();
    let mut i: usize = 0;
    while i < v.len()
        invariant
            0 <= i <= v@.len(),
            r@.len() == i,
            forall|k: int| 0 <= k < i ==> (#[trigger] r@[k]).0@ == v@[k].0@ && r@[k].1@ == v@[k].1@,
        decreases v@.len() - i,
    {
        r.push((v[i].0.clone(), v[i].1.duplicate()));
        i = i + 1;
    }
    assert(values_view(r@) =~= values_view(v@));
    r
}

/// Build the evaluation context of a rule from its metadata and the
/// values of its inputs.
pub fn build_eval_context(metadata: &RuleMetadata, input_values: &Vec<(String, InputValue)>) -> (c:
    RuleEvaluationContext)
    ensures
        c@ == eval_context_of(*metadata, values_view(input_values@)),
{
    let c = RuleEvaluationContext {
        rule_name: metadata.name.clone(),
        rule_description: metadata.description.clone(),
        rule_type: metadata.rule_type.clone(),
        inputs: copy_infos(&metadata.inputs),
        outputs: copy_infos(&metadata.outputs),
        input_values: copy_values(input_values),
        additional_context: None,
        product_name: metadata.product_name.clone(),
    };
    c
}

/// The prompt of a rule: its own template filled from the context, or
/// the default prompt.
pub fn build_prompt(metadata: &RuleMetadata, context: &RuleEvaluationContext) -> (r: String)
    ensures
        r@ == built_prompt(opt_view(metadata.prompt_template), false, OutputFormatInstructions::Json, context@),
{
    let builder = match &metadata.prompt_template {
        Some(t) => PromptBuilder::new().with_template(t.as_str()),
        None => PromptBuilder::new(),
    };
    builder.build(context)
}

/// The system prompt a rule is evaluated with: the rule's own, else the
/// evaluator configuration's, else the default one.
pub fn choose_system_prompt(rule_prompt: &Option<String>, config_prompt: &Option<String>) -> (r: String)
    ensures
        r@ == match opt_view(*rule_prompt) {
            Some(p) => p,
            None => match opt_view(*config_prompt) {
                Some(p) => p,
                None => crate::llm::prompt::system_prompt_text(),
            },
        },
{
    match rule_prompt {
        Some(p) => p.clone(),
        None => match config_prompt {
            Some(p) => p.clone(),
            None => crate::llm::prompt::default_system_prompt(),
        },
    }
}

/// The inputs of a rule found among the first `k` of its declared inputs,
/// each with its value in `known`.
pub open spec fn gathered(inputs: Seq<SpecAttributeInfo>, known: Seq<(Seq<char>, SpecInputValue)>, k: int) -> Seq<
    (Seq<char>, SpecInputValue),
>
    decreases k,
{
    if k <= 0 {
        Seq::empty()
    } else {
        gathered(inputs, known, k - 1) + match value_of(known, inputs[k - 1].name) {
            Some(v) => seq![(inputs[k - 1].name, v)],
            None => Seq::empty(),
        }
    }
}

/// The position of the first value named `name`, if any.
fn position_of(known: &Vec<(String, InputValue)>, name: &String) -> (r: Option<usize>)
    ensures
        match r {
            Some(j) => j < known@.len() && j == value_index(values_view(known@), name@, 0),
            None => value_index(values_view(known@), name@, 0) == known@.len(),
        },
{
    let ghost kv = values_view(known@);
    let mut k: usize = 0;
    while k < known.len()
        invariant
            0 <= k <= known@.len(),
            kv == values_view(known@),
            value_index(kv, name@, 0) == value_index(kv, name@, k as int),
        decreases known@.len() - k,
    {
        assert(kv[k as int].0 == known@[k as int].0@);
        if known[k].0 == *name {
            return Some(k);
        }
        k = k + 1;
    }
    None
}

/// The inputs of a rule from the values known so far: each declared input
/// that has a value, with it.
pub fn gather_inputs(metadata: &RuleMetadata, known: &Vec<(String, InputValue)>) -> (r: Vec<(String, InputValue)>)
    ensures
        values_view(r@) == gathered(infos_view(metadata.inputs@), values_view(known@), metadata.inputs@.len() as int),
{
    let ghost kv = values_view(known@);
    let ghost iv = infos_view(metadata.inputs@);
    let mut r: Vec<(String, InputValue)> = Vec::new();
    assert(values_view(r@) =~= gathered(iv, kv, 0));
    let mut i: usize = 0;
    while i < metadata.inputs.len()
        invariant
            0 <= i <= metadata.inputs@.len(),
            kv == values_view(known@),
            iv == infos_view(metadata.inputs@),
            values_view(r@) == gathered(iv, kv, i as int),
        decreases metadata.inputs@.len() - i,
    {
        let name = &metadata.inputs[i].name;
        assert(iv[i as int].name == name@);
        let ghost before = values_view(r@);
        let found = position_of(known, name);
        proof {
            lemma_value_index_bounds(kv, name@, 0);
        }
        match found {
            Some(j) => {
                assert(value_index(kv, name@, 0) == j);
                assert(kv[j as int] == (known@[j as int].0@, known@[j as int].1@));
                r.push((name.clone(), known[j].1.duplicate()));
                assert(values_view(r@) =~= before + seq![(name@, known@[j as int].1@)]);
            },
            None => {
                assert(value_index(kv, name@, 0) == kv.len());
                assert(values_view(r@) =~= before + Seq::<(Seq<char>, SpecInputValue)>::empty());
            },
        }
        i = i + 1;
    }
    r
}

} // verus!
