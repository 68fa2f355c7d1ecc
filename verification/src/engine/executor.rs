//! Running rules level by level.
//!
//! A run is planned from the rules and the context: the rules' dependency
//! graph, the check that every input is produced by a rule or given, and
//! the execution levels.  The run then hands out one rule at a time, with
//! the data its expression is evaluated against, and takes back the value
//! (or the failure) of that evaluation; the evaluation itself happens
//! outside.  A level whose rules run in parallel reads the context as it
//! was before the level and gets the outputs of all its rules at its end;
//! any failure in it fails the run with all of the level's failures.  A
//! rule run on its own reads the context as it is and sets its outputs at
//! once; its failure fails the run.

use vstd::prelude::*;
use crate::engine::context::{
    assign, context_value, distinct_names, entry_names, lemma_set_then_get, nested_members, ExecutionContext,
    SpecExecutionContext,
};
use crate::engine::dag::{
    acyclic, config_error, dag_edges, groups_ids, input_count, is_config_error, is_cyclic_error, is_level_grouping,
    is_level_map, levels_view, missing_upto, nodes_view, pairs_view, strings_view, RuleDag, RuleNode, SpecRuleNode,
};
use crate::engine::graph::toposort_result;
use crate::engine::error::RuleEngineError;
use crate::json::{json_view, lemma_members_view, members_view, Json, SpecJson};
use crate::text::{chars_equal, push_str, str_chars, string_from_chars};

verus! {

/// Result of executing a rule
#[derive(Debug)]
pub struct RuleResult {
    /// The rule ID
    pub rule_id: String,
    /// The output attributes and their values
    pub outputs: Vec<(String, Json)>,
    /// Execution time in nanoseconds
    pub execution_time_ns: u64,
}

/// Model of a [`RuleResult`].
pub struct SpecRuleResult {
    pub rule_id: Seq<char>,
    pub outputs: Seq<(Seq<char>, SpecJson)>,
    pub execution_time_ns: u64,
}

impl View for RuleResult {
    type V = SpecRuleResult;

    open spec fn view(&self) -> SpecRuleResult {
        SpecRuleResult {
            rule_id: self.rule_id@,
            outputs: members_view(self.outputs@),
            execution_time_ns: self.execution_time_ns,
        }
    }
}

pub open spec fn results_view(v: Seq<RuleResult>) -> Seq<SpecRuleResult> {
    v.map_values(|r: RuleResult| r@)
}

/// Each output of a rule with the value its expression gave.
pub open spec fn outputs_with(outputs: Seq<Seq<char>>, v: SpecJson) -> Seq<(Seq<char>, SpecJson)> {
    outputs.map_values(|o: Seq<char>| (o, v))
}

/// The context with the first `k` outputs set, in turn.
pub open spec fn set_outputs(c: SpecExecutionContext, outs: Seq<(Seq<char>, SpecJson)>, k: int) -> SpecExecutionContext
    decreases k,
{
    if k <= 0 {
        c
    } else {
        let prev = set_outputs(c, outs, k - 1);
        SpecExecutionContext { computed: assign(prev.computed, outs[k - 1].0, outs[k - 1].1), ..prev }
    }
}

/// The context with the outputs of the first `k` results set, in turn.
pub open spec fn set_results(c: SpecExecutionContext, rs: Seq<SpecRuleResult>, k: int) -> SpecExecutionContext
    decreases k,
{
    if k <= 0 {
        c
    } else {
        let prev = set_results(c, rs, k - 1);
        set_outputs(prev, rs[k - 1].outputs, rs[k - 1].outputs.len() as int)
    }
}

/// The index of the first rule with identifier `id` (the number of rules
/// when there is none).
pub open spec fn rule_index(rules: Seq<SpecRuleNode>, id: Seq<char>, k: int) -> int
    decreases rules.len() - k,
{
    if k < 0 || k >= rules.len() {
        rules.len() as int
    } else if rules[k].id == id {
        k
    } else {
        rule_index(rules, id, k + 1)
    }
}

/// The message of a failed evaluation of rule `id`.
pub open spec fn failure_text(id: Seq<char>, msg: Seq<char>) -> Seq<char> {
    "Rule '"@ + id + "' evaluation failed: "@ + msg
}

/// Why a run stopped early.
#[derive(Debug)]
pub enum Stop {
    /// A rule run on its own failed: its id and the message of the failure
    Rule(String, String),
    /// A rule the levels name is not among the rules
    Unknown(String),
    /// Rules of a parallel level failed
    Level,
}

/// Model of an [`ExecutionRun`].
pub struct SpecRun {
    pub rules: Seq<SpecRuleNode>,
    pub levels: Seq<Seq<Seq<char>>>,
    pub parallel: bool,
    pub level: int,
    pub pos: int,
    pub pending: Seq<SpecRuleResult>,
    pub failures: Seq<(Seq<char>, Seq<char>)>,
    pub context: SpecExecutionContext,
    pub results: Seq<SpecRuleResult>,
    pub stop: Option<SpecStop>,
}

/// Model of a [`Stop`].
pub enum SpecStop {
    Rule(Seq<char>, Seq<char>),
    Unknown(Seq<char>),
    Level,
}

pub open spec fn stop_view(s: Option<Stop>) -> Option<SpecStop> {
    match s {
        Some(Stop::Rule(id, msg)) => Some(SpecStop::Rule(id@, msg@)),
        Some(Stop::Unknown(id)) => Some(SpecStop::Unknown(id@)),
        Some(Stop::Level) => Some(SpecStop::Level),
        None => None,
    }
}

/// A run of rules, level by level (see the module's documentation).
pub struct ExecutionRun {
    rules: Vec<RuleNode>,
    levels: Vec<Vec<String>>,
    parallel: bool,
    level: usize,
    pos: usize,
    pending: Vec<RuleResult>,
    failures: Vec<(String, String)>,
    context: ExecutionContext,
    results: Vec<RuleResult>,
    stop: Option<Stop>,
}

impl View for ExecutionRun {
    type V = SpecRun;

    closed spec fn view(&self) -> SpecRun {
        SpecRun {
            rules: nodes_view(self.rules@),
            levels: levels_view(self.levels@),
            parallel: self.parallel,
            level: self.level as int,
            pos: self.pos as int,
            pending: results_view(self.pending@),
            failures: pairs_view(self.failures@),
            context: self.context@,
            results: results_view(self.results@),
            stop: stop_view(self.stop),
        }
    }
}

/// The names the context gives a value for, each once.
pub open spec fn available_names(c: SpecExecutionContext) -> Seq<Seq<char>> {
    distinct_names(entry_names(c.input) + entry_names(c.computed), (c.input.len() + c.computed.len()) as int)
}

/// Whether the rules of a level run in parallel: when running in parallel
/// is asked for and the level has more than one rule.
pub open spec fn in_parallel(s: SpecRun) -> bool {
    s.parallel && 0 <= s.level < s.levels.len() && s.levels[s.level].len() > 1
}

/// The state of a run is consistent: its position lies within its levels.
pub open spec fn run_ok(s: SpecRun) -> bool {
    &&& 0 <= s.level <= s.levels.len()
    &&& s.level < s.levels.len() ==> 0 <= s.pos <= s.levels[s.level].len()
    &&& s.level == s.levels.len() ==> s.pos == 0
    &&& !in_parallel(s) ==> s.pending.len() == 0 && s.failures.len() == 0
}

/// The run after the level it is at is closed: the outputs of a parallel
/// level's rules are set and their results kept, and the next level begins.
pub open spec fn closed_level(s: SpecRun) -> SpecRun {
    SpecRun {
        level: s.level + 1,
        pos: 0,
        pending: Seq::empty(),
        failures: Seq::empty(),
        context: set_results(s.context, s.pending, s.pending.len() as int),
        results: s.results + s.pending,
        ..s
    }
}

impl ExecutionRun {
    /// Plan a run: build the rules' dependency graph, check that each input
    /// is produced by a rule or given by the context, and take the
    /// execution levels.
    pub fn start(rules: &Vec<RuleNode>, context: &ExecutionContext, parallel: bool) -> (r: Result<
        ExecutionRun,
        RuleEngineError,
    >)
        requires
            rules@.len() < u32::MAX,
            input_count(nodes_view(rules@), rules@.len() as int) < u32::MAX,
        ensures
            r is Ok <==> (config_error(nodes_view(rules@)) is None && acyclic(
                rules@.len() as nat,
                dag_edges(nodes_view(rules@)),
            ) && missing_upto(nodes_view(rules@), available_names(context@), rules@.len() as int).len() == 0),
            match r {
                Ok(run) => {
                    &&& run@.rules == nodes_view(rules@)
                    &&& run@.parallel == parallel
                    &&& run@.level == 0 && run@.pos == 0
                    &&& run@.pending.len() == 0 && run@.failures.len() == 0
                    &&& run@.results.len() == 0 && run@.stop is None
                    &&& run@.context == context@
                    &&& run_ok(run@)
                    &&& exists|lv: Seq<usize>, g: Seq<Seq<usize>>|
                        is_level_map(rules@.len(), dag_edges(nodes_view(rules@)), lv) && is_level_grouping(
                            nodes_view(rules@),
                            lv,
                            g,
                        ) && run@.levels == groups_ids(nodes_view(rules@), g)
                },
                Err(e) => match config_error(nodes_view(rules@)) {
                    Some(msg) => is_config_error(e, msg),
                    None => if !acyclic(rules@.len() as nat, dag_edges(nodes_view(rules@))) {
                        toposort_result(rules@.len() as nat, dag_edges(nodes_view(rules@))) matches Err(c) && c
                            < rules@.len() && is_cyclic_error(e, "Cycle detected at rule: "@ + nodes_view(rules@)[c as int].id)
                    } else {
                        e matches RuleEngineError::MissingDependencies(m) && pairs_view(m@) == missing_upto(
                            nodes_view(rules@),
                            available_names(context@),
                            rules@.len() as int,
                        )
                    },
                },
            },
    {
        let dag = RuleDag::from_rules(rules)?;
        let available = context.available_inputs();
        let missing = dag.find_missing_inputs(&available);
        if missing.len() > 0 {
            return Err(RuleEngineError::MissingDependencies(missing));
        }
        let levels = dag.execution_levels()?;
        let mut own: Vec<RuleNode> = Vec::new();
        let mut i: usize = 0;
        while i < rules.len()
            invariant
                0 <= i <= rules@.len(),
                own@.len() == i,
                forall|k: int| 0 <= k < i ==> (#[trigger] own@[k])@ == rules@[k]@,
            decreases rules@.len() - i,
        {
            own.push(rules[i].duplicate());
            i = i + 1;
        }
        assert(nodes_view(own@) =~= nodes_view(rules@));
        let run = ExecutionRun {
            rules: own,
            levels,
            parallel,
            level: 0,
            pos: 0,
            pending: Vec::new(),
            failures: Vec::new(),
            context: context.duplicate(),
            results: Vec::new(),
            stop: None,
        };
        assert(run@.pending =~= Seq::<SpecRuleResult>::empty());
        assert(run@.failures =~= Seq::<(Seq<char>, Seq<char>)>::empty());
        assert(run@.results =~= Seq::<SpecRuleResult>::empty());
        Ok(run)
    }
}

/// The run once the levels whose rules have all been handed out are
/// closed: it stops at a parallel level with failures, else it moves on to
/// the next rule to hand out, or to its end.
pub open spec fn settled(s: SpecRun) -> SpecRun
    decreases s.levels.len() - s.level,
{
    if s.stop is Some || s.level < 0 || s.level >= s.levels.len() {
        s
    } else if s.pos < s.levels[s.level].len() {
        s
    } else if in_parallel(s) && s.failures.len() > 0 {
        SpecRun { stop: Some(SpecStop::Level), ..s }
    } else {
        settled(closed_level(s))
    }
}

/// The rule the run hands out next.
pub open spec fn next_id(s: SpecRun) -> Seq<char> {
    s.levels[s.level][s.pos]
}

/// Whether the run has a rule to hand out.
pub open spec fn has_rule(s: SpecRun) -> bool {
    s.stop is None && 0 <= s.level < s.levels.len() && 0 <= s.pos < s.levels[s.level].len()
}

pub proof fn lemma_settled_ok(s: SpecRun)
    requires
        run_ok(s),
    ensures
        run_ok(settled(s)),
        settled(s).stop is None ==> has_rule(settled(s)) || settled(s).level == settled(s).levels.len(),
        settled(s).rules == s.rules,
        settled(s).levels == s.levels,
        settled(s).parallel == s.parallel,
    decreases s.levels.len() - s.level,
{
    if s.stop is Some || s.level < 0 || s.level >= s.levels.len() {
    } else if s.pos < s.levels[s.level].len() {
    } else if in_parallel(s) && s.failures.len() > 0 {
    } else {
        let c = closed_level(s);
        assert(run_ok(c));
        lemma_settled_ok(c);
    }
}

/// Sets the outputs of each result in `context`, in turn.
fn apply_results(context: &mut ExecutionContext, rs: &Vec<RuleResult>)
    ensures
        final(context)@ == set_results(old(context)@, results_view(rs@), rs@.len() as int),
{
    let ghost start = context@;
    let mut i: usize = 0;
    while i < rs.len()
        invariant
            0 <= i <= rs@.len(),
            context@ == set_results(start, results_view(rs@), i as int),
        decreases rs@.len() - i,
    {
        let r = &rs[i];
        assert(results_view(rs@)[i as int] == r@);
        proof {
            lemma_members_view(r.outputs@);
        }
        apply_outputs(context, &r.outputs);
        i = i + 1;
    }
}

/// Sets each output in `context`, in turn.
fn apply_outputs(context: &mut ExecutionContext, outs: &Vec<(String, Json)>)
    ensures
        final(context)@ == set_outputs(old(context)@, members_view(outs@), outs@.len() as int),
{
    let ghost start = context@;
    let ghost ov = members_view(outs@);
    proof {
        lemma_members_view(outs@);
    }
    let mut i: usize = 0;
    while i < outs.len()
        invariant
            0 <= i <= outs@.len(),
            ov == members_view(outs@),
            ov.len() == outs@.len(),
            forall|j: int| 0 <= j < outs@.len() ==> #[trigger] ov[j] == (outs@[j].0@, json_view(outs@[j].1)),
            context@ == set_outputs(start, ov, i as int),
        decreases outs@.len() - i,
    {
        let (k, v) = &outs[i];
        assert(ov[i as int] == (k@, v@));
        context.set(k.as_str(), v.duplicate());
        i = i + 1;
    }
}

/// Each output name with the value.
fn outputs_of(outputs: &Vec<String>, v: &Json) -> (r: Vec<(String, Json)>)
    ensures
        members_view(r@) == outputs_with(strings_view(outputs@), v@),
{
    let mut r: Vec<(String, Json)> = Vec::new();
    let mut i: usize = 0;
    while i < outputs.len()
        invariant
            0 <= i <= outputs@.len(),
            r@.len() == i,
            forall|k: int| 0 <= k < i ==> (#[trigger] r@[k]).0@ == outputs@[k]@ && r@[k].1@ == v@,
        decreases outputs@.len() - i,
    {
        r.push((outputs[i].clone(), v.duplicate()));
        i = i + 1;
    }
    proof {
        lemma_members_view(r@);
        assert(members_view(r@) =~= outputs_with(strings_view(outputs@), v@));
    }
    r
}

impl ExecutionRun {
    /// The next rule to evaluate and the data it reads, or none when the
    /// run is over (finished, or stopped by a failure).  Levels whose rules
    /// were all handed out are closed first (see [`settled`]).
    pub fn next_rule(&mut self) -> (r: Option<(String, Json)>)
        requires
            run_ok(old(self)@),
        ensures
            final(self)@ == settled(old(self)@),
            run_ok(final(self)@),
            match r {
                Some((id, data)) => has_rule(final(self)@) && id@ == next_id(final(self)@) && data@ == SpecJson::Object(
                    nested_members(final(self)@.context),
                ),
                None => !has_rule(final(self)@),
            },
        decreases old(self)@.levels.len() - old(self)@.level,
    {
        proof {
            lemma_settled_ok(self@);
        }
        if self.stop.is_some() || self.level >= self.levels.len() {
            return None;
        }
        let ghost lv = self@.levels;
        assert(lv[self.level as int] == strings_view(self.levels@[self.level as int]@));
        let n = self.levels[self.level].len();
        if self.pos < n {
            let id = self.levels[self.level][self.pos].clone();
            let data = self.context.to_value();
            return Some((id, data));
        }
        let par = self.parallel && n > 1;
        let ghost before = self@;
        if par {
            if self.failures.len() > 0 {
                self.stop = Some(Stop::Level);
                return None;
            }
            let mut pending: Vec<RuleResult> = Vec::new();
            std::mem::swap(&mut pending, &mut self.pending);
            apply_results(&mut self.context, &pending);
            self.results.append(&mut pending);
            proof {
                assert(results_view(self.results@) =~= before.results + before.pending);
            }
        } else {
            proof {
                assert(before.results + before.pending =~= before.results);
                assert(set_results(before.context, before.pending, 0) == before.context);
            }
        }
        self.level = self.level + 1;
        self.pos = 0;
        proof {
            assert(self@.pending =~= Seq::<SpecRuleResult>::empty());
            assert(self@.failures =~= Seq::<(Seq<char>, Seq<char>)>::empty());
            assert(self@.results =~= closed_level(before).results);
            assert(self@ == closed_level(before));
        }
        self.next_rule()
    }
}

pub open spec fn outcome_view(o: Result<Json, String>) -> Result<SpecJson, Seq<char>> {
    match o {
        Ok(v) => Ok(v@),
        Err(m) => Err(m@),
    }
}

/// The run after the rule it handed out was evaluated, with `outcome`: a
/// value gives the rule's outputs (kept for the end of a parallel level,
/// set at once otherwise); a failure is kept with the level's failures in a
/// parallel level and stops the run otherwise.
pub open spec fn recorded(s: SpecRun, outcome: Result<SpecJson, Seq<char>>, time: u64) -> SpecRun {
    let id = next_id(s);
    let k = rule_index(s.rules, id, 0);
    let next = SpecRun { pos: s.pos + 1, ..s };
    if k < 0 || k >= s.rules.len() {
        SpecRun { stop: Some(SpecStop::Unknown(id)), ..next }
    } else {
        match outcome {
            Ok(v) => {
                let res = SpecRuleResult { rule_id: id, outputs: outputs_with(s.rules[k].outputs, v), execution_time_ns: time };
                if in_parallel(s) {
                    SpecRun { pending: s.pending.push(res), ..next }
                } else {
                    SpecRun {
                        context: set_outputs(s.context, res.outputs, res.outputs.len() as int),
                        results: s.results.push(res),
                        ..next
                    }
                }
            },
            Err(msg) => if in_parallel(s) {
                SpecRun { failures: s.failures.push((id, failure_text(id, msg))), ..next }
            } else {
                SpecRun { stop: Some(SpecStop::Rule(id, msg)), ..next }
            },
        }
    }
}

/// The message of a failed evaluation of rule `id`.
fn failure_message(id: &String, msg: &String) -> (r: String)
    ensures
        r@ == failure_text(id@, msg@),
{
    let mut out: Vec<char> = Vec::new();
    push_str(&mut out, "Rule '");
    push_str(&mut out, id.as_str());
    push_str(&mut out, "' evaluation failed: ");
    push_str(&mut out, msg.as_str());
    string_from_chars(out.as_slice())
}

/// The position of the rule with identifier `id`, if any.
fn rule_position(rules: &Vec<RuleNode>, id: &String) -> (r: Option<usize>)
    ensures
        match r {
            Some(k) => k < rules@.len() && k == rule_index(nodes_view(rules@), id@, 0),
            None => rule_index(nodes_view(rules@), id@, 0) == rules@.len(),
        },
{
    let ghost nv = nodes_view(rules@);
    let mut k: usize = 0;
    while k < rules.len()
        invariant
            0 <= k <= rules@.len(),
            nv == nodes_view(rules@),
            rule_index(nv, id@, 0) == rule_index(nv, id@, k as int),
        decreases rules@.len() - k,
    {
        assert(nv[k as int].id == rules@[k as int].id@);
        if rules[k].id == *id {
            return Some(k);
        }
        k = k + 1;
    }
    None
}

/// Result of executing all rules
#[derive(Debug)]
pub struct ExecutionResult {
    /// Results for each rule
    pub rule_results: Vec<RuleResult>,
    /// Final context with all computed values
    pub context: ExecutionContext,
    /// Total execution time in nanoseconds
    pub total_time_ns: u64,
    /// Execution levels (for debugging/analysis)
    pub levels: Vec<Vec<String>>,
}

impl ExecutionResult {
    /// Get the result for a specific rule (the first one for it)
    pub fn get_result(&self, rule_id: &str) -> (r: Option<&RuleResult>)
        ensures
            match r {
                Some(res) => exists|i: int|
                    0 <= i < self.rule_results@.len() && self.rule_results@[i] == *res && res.rule_id@ == rule_id@
                        && forall|j: int| 0 <= j < i ==> (#[trigger] self.rule_results@[j]).rule_id@ != rule_id@,
                None => forall|j: int| 0 <= j < self.rule_results@.len() ==> (#[trigger] self.rule_results@[j]).rule_id@ != rule_id@,
            },
    {
        let id = str_chars(rule_id);
        let mut i: usize = 0;
        while i < self.rule_results.len()
            invariant
                0 <= i <= self.rule_results@.len(),
                id@ == rule_id@,
                forall|j: int| 0 <= j < i ==> (#[trigger] self.rule_results@[j]).rule_id@ != rule_id@,
            decreases self.rule_results@.len() - i,
        {
            let k = str_chars(self.rule_results[i].rule_id.as_str());
            if chars_equal(k.as_slice(), id.as_slice()) {
                return Some(&self.rule_results[i]);
            }
            i = i + 1;
        }
        None
    }

    /// Get the value of a specific output
    pub fn get_output(&self, output: &str) -> (r: Option<&Json>)
        ensures
            match r {
                Some(v) => context_value(self.context@, output@) == Some(v@),
                None => context_value(self.context@, output@) is None,
            },
    {
        self.context.get(output)
    }
}

impl ExecutionRun {
    /// Take the outcome of evaluating the rule handed out last: its value,
    /// or the message of its failure (see [`recorded`]).
    pub fn record(&mut self, outcome: Result<Json, String>, execution_time_ns: u64)
        requires
            run_ok(old(self)@),
            has_rule(old(self)@),
        ensures
            final(self)@ == recorded(old(self)@, outcome_view(outcome), execution_time_ns),
            run_ok(final(self)@),
    {
        let ghost before = self@;
        let ghost ov = outcome_view(outcome);
        assert(before.levels[self.level as int] == strings_view(self.levels@[self.level as int]@));
        let id = self.levels[self.level][self.pos].clone();
        let n = self.levels[self.level].len();
        let par = self.parallel && n > 1;
        self.pos = self.pos + 1;
        match rule_position(&self.rules, &id) {
            None => {
                self.stop = Some(Stop::Unknown(id));
            },
            Some(k) => {
                assert(nodes_view(self.rules@)[k as int] == self.rules@[k as int]@);
                match outcome {
                    Ok(v) => {
                        let outputs = outputs_of(&self.rules[k].outputs, &v);
                        let res = RuleResult { rule_id: id, outputs, execution_time_ns };
                        if par {
                            self.pending.push(res);
                            proof {
                                assert(results_view(self.pending@) =~= before.pending.push(res@));
                            }
                        } else {
                            proof {
                                lemma_members_view(res.outputs@);
                            }
                            apply_outputs(&mut self.context, &res.outputs);
                            self.results.push(res);
                            proof {
                                assert(results_view(self.results@) =~= before.results.push(res@));
                            }
                        }
                    },
                    Err(msg) => {
                        if par {
                            let text = failure_message(&id, &msg);
                            self.failures.push((id, text));
                            proof {
                                assert(pairs_view(self.failures@) =~= before.failures.push(
                                    (before.levels[before.level][before.pos], failure_text(before.levels[before.level][before.pos], msg@)),
                                ));
                            }
                        } else {
                            self.stop = Some(Stop::Rule(id, msg));
                        }
                    },
                }
            },
        }
    }

    /// The end of the run: its results, final context and levels, or the
    /// error that stopped it.
    pub fn finish(self, total_time_ns: u64) -> (r: Result<ExecutionResult, RuleEngineError>)
        requires
            run_ok(self@),
            !has_rule(self@),
        ensures
            match self@.stop {
                None => r matches Ok(res) && results_view(res.rule_results@) == self@.results && res.context@
                    == self@.context && levels_view(res.levels@) == self@.levels && res.total_time_ns == total_time_ns,
                Some(SpecStop::Rule(id, msg)) => r matches Err(RuleEngineError::EvaluationError(t)) && t@ == failure_text(
                    id,
                    msg,
                ),
                Some(SpecStop::Unknown(id)) => r matches Err(RuleEngineError::RuleNotFound(t)) && t@ == id,
                Some(SpecStop::Level) => r matches Err(RuleEngineError::MultipleRuleFailures(v)) && v@.len()
                    == self@.failures.len() && forall|i: int|
                    0 <= i < v@.len() ==> (#[trigger] v@[i]).0@ == self@.failures[i].0 && (v@[i].1 matches RuleEngineError::EvaluationError(
                        t,
                    ) && t@ == self@.failures[i].1),
            },
    {
        let ghost before = self@;
        let ExecutionRun { rules: _, levels, parallel: _, level: _, pos: _, pending: _, failures, context, results, stop } =
            self;
        match stop {
            None => Ok(ExecutionResult { rule_results: results, context, total_time_ns, levels }),
            Some(Stop::Rule(id, msg)) => Err(RuleEngineError::EvaluationError(failure_message(&id, &msg))),
            Some(Stop::Unknown(id)) => Err(RuleEngineError::RuleNotFound(id)),
            Some(Stop::Level) => {
                let mut v: Vec<(String, RuleEngineError)> = Vec::new();
                let mut i: usize = 0;
                while i < failures.len()
                    invariant
                        0 <= i <= failures@.len(),
                        v@.len() == i,
                        before.failures == pairs_view(failures@),
                        forall|j: int|
                            0 <= j < i ==> (#[trigger] v@[j]).0@ == before.failures[j].0 && (v@[j].1 matches RuleEngineError::EvaluationError(
                                t,
                            ) && t@ == before.failures[j].1),
                    decreases failures@.len() - i,
                {
                    let (id, text) = &failures[i];
                    assert(before.failures[i as int] == (id@, text@));
                    v.push((id.clone(), RuleEngineError::EvaluationError(text.clone())));
                    i = i + 1;
                }
                Err(RuleEngineError::MultipleRuleFailures(v))
            },
        }
    }
}

/// Once set, each output reads as the value it was set to.
pub proof fn lemma_outputs_visible(c: SpecExecutionContext, names: Seq<Seq<char>>, v: SpecJson, k: int, name: Seq<char>)
    requires
        0 <= k <= names.len(),
        names.subrange(0, k).contains(name),
    ensures
        context_value(set_outputs(c, outputs_with(names, v), k), name) == Some(v),
    decreases k,
{
    let outs = outputs_with(names, v);
    let prev = set_outputs(c, outs, k - 1);
    assert(outs[k - 1] == (names[k - 1], v));
    if names[k - 1] == name {
        lemma_set_then_get(prev, name, v, name);
    } else {
        let j = choose|j: int| 0 <= j < k && #[trigger] names.subrange(0, k)[j] == name;
        assert(j < k - 1);
        assert(names.subrange(0, k - 1)[j] == name);
        lemma_outputs_visible(c, names, v, k - 1, name);
        lemma_set_then_get(prev, names[k - 1], v, name);
    }
}

/// A rule run on its own that gave a value makes each of its outputs read
/// as that value for the rules that come after it.
pub proof fn lemma_sequential_outputs_visible(s: SpecRun, v: SpecJson, time: u64, name: Seq<char>)
    requires
        run_ok(s),
        has_rule(s),
        !in_parallel(s),
        0 <= rule_index(s.rules, next_id(s), 0) < s.rules.len(),
        s.rules[rule_index(s.rules, next_id(s), 0)].outputs.contains(name),
    ensures
        context_value(recorded(s, Ok(v), time).context, name) == Some(v),
{
    let names = s.rules[rule_index(s.rules, next_id(s), 0)].outputs;
    assert(names.subrange(0, names.len() as int) =~= names);
    lemma_outputs_visible(s.context, names, v, names.len() as int, name);
}

} // verus!
