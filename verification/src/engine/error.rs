//! Error types for rule engine operations

use vstd::prelude::*;
use crate::text::{push_chars, push_str, str_chars, string_from_chars};

verus! {

/// An error of the rule engine
#[derive(Debug)]
pub enum RuleEngineError {
    CyclicDependency(String),
    MissingDependency { rule: String, dependency: String },
    MissingDependencies(Vec<(String, String)>),
    RuleNotFound(String),
    EvaluationError(String),
    InvalidConfiguration(String),
    /// An error reported by the JSON Logic evaluator, by its message
    JsonLogicError(String),
    ContextError(String),
    MultipleRuleFailures(Vec<(String, RuleEngineError)>),
}

/// `rule 'r' requires 'd'` for each pair, joined by `; `.
pub open spec fn missing_deps_text(deps: Seq<(Seq<char>, Seq<char>)>) -> Seq<char>
    decreases deps.len(),
{
    if deps.len() == 0 {
        seq![]
    } else {
        let one = "rule '"@ + deps[0].0 + "' requires '"@ + deps[0].1 + "'"@;
        if deps.len() == 1 {
            one
        } else {
            one + "; "@ + missing_deps_text(deps.subrange(1, deps.len() as int))
        }
    }
}

pub open spec fn pairs_text_view(v: Seq<(String, String)>) -> Seq<(Seq<char>, Seq<char>)> {
    v.map_values(|p: (String, String)| (p.0@, p.1@))
}

/// The message of an error (its `Display` text).
pub open spec fn engine_error_text(e: RuleEngineError) -> Seq<char>
    decreases e,
{
    match e {
        RuleEngineError::CyclicDependency(s) => "Cyclic dependency detected: "@ + s@,
        RuleEngineError::MissingDependency { rule, dependency } => "Missing dependency: rule '"@ + rule@
            + "' requires '"@ + dependency@ + "' which is not available"@,
        RuleEngineError::MissingDependencies(deps) => "Missing dependencies: "@ + missing_deps_text(
            pairs_text_view(deps@),
        ),
        RuleEngineError::RuleNotFound(s) => "Rule not found: "@ + s@,
        RuleEngineError::EvaluationError(s) => "Evaluation error: "@ + s@,
        RuleEngineError::InvalidConfiguration(s) => "Invalid rule configuration: "@ + s@,
        RuleEngineError::JsonLogicError(s) => "JSON Logic error: "@ + s@,
        RuleEngineError::ContextError(s) => "Context error: "@ + s@,
        RuleEngineError::MultipleRuleFailures(v) => "Multiple rule failures during parallel execution: "@
            + failures_text(v@),
    }
}

/// `id: message` for each failure, joined by `; `.
pub open spec fn failures_text(v: Seq<(String, RuleEngineError)>) -> Seq<char>
    decreases v,
{
    if v.len() == 0 {
        seq![]
    } else {
        let one = v[0].0@ + ": "@ + engine_error_text(v[0].1);
        if v.len() == 1 {
            one
        } else {
            one + "; "@ + failures_text(v.subrange(1, v.len() as int))
        }
    }
}

/// Format missing dependencies for display
pub fn format_missing_deps(deps: &Vec<(String, String)>) -> (r: String)
    ensures
        r@ == missing_deps_text(pairs_text_view(deps@)),
{
    let ghost dv = pairs_text_view(deps@);
    let mut out: Vec<char> = Vec::new();
    let mut i: usize = deps.len();
    // Built from the back: the text of deps[i..] is held in `out`.
    assert(dv.subrange(i as int, dv.len() as int) =~= Seq::<(Seq<char>, Seq<char>)>::empty());
    while i > 0
        invariant
            0 <= i <= deps@.len(),
            dv == pairs_text_view(deps@),
            dv.len() == deps@.len(),
            out@ == missing_deps_text(dv.subrange(i as int, dv.len() as int)),
        decreases i,
    {
        i = i - 1;
        let mut v: Vec<char> = Vec::new();
        push_str(&mut v, "rule '");
        push_str(&mut v, deps[i].0.as_str());
        push_str(&mut v, "' requires '");
        push_str(&mut v, deps[i].1.as_str());
        push_str(&mut v, "'");
        let ghost rest = dv.subrange(i + 1, dv.len() as int);
        let ghost cur = dv.subrange(i as int, dv.len() as int);
        assert(cur.subrange(1, cur.len() as int) =~= rest);
        assert(cur[0] == dv[i as int]);
        if out.len() > 0 {
            push_str(&mut v, "; ");
            push_chars(&mut v, out.as_slice());
        }
        proof {
            reveal_strlit("");
            if rest.len() == 0 {
                assert(out@.len() == 0);
            } else {
                assert(out@ == missing_deps_text(rest));
                lemma_missing_deps_text_nonempty(rest);
            }
        }
        out = v;
    }
    assert(dv.subrange(0, dv.len() as int) =~= dv);
    string_from_chars(out.as_slice())
}

proof fn lemma_missing_deps_text_nonempty(deps: Seq<(Seq<char>, Seq<char>)>)
    requires
        deps.len() > 0,
    ensures
        missing_deps_text(deps).len() > 0,
{
    reveal_strlit("rule '");
}

impl RuleEngineError {
    /// The message of this error.
    pub fn to_text(&self) -> (r: String)
        ensures
            r@ == engine_error_text(*self),
        decreases self,
    {
        let mut v: Vec<char> = Vec::new();
        match self {
            RuleEngineError::CyclicDependency(s) => {
                push_str(&mut v, "Cyclic dependency detected: ");
                push_str(&mut v, s.as_str());
            },
            RuleEngineError::MissingDependency { rule, dependency } => {
                push_str(&mut v, "Missing dependency: rule '");
                push_str(&mut v, rule.as_str());
                push_str(&mut v, "' requires '");
                push_str(&mut v, dependency.as_str());
                push_str(&mut v, "' which is not available");
            },
            RuleEngineError::MissingDependencies(deps) => {
                push_str(&mut v, "Missing dependencies: ");
                let t = format_missing_deps(deps);
                push_str(&mut v, t.as_str());
            },
            RuleEngineError::RuleNotFound(s) => {
                push_str(&mut v, "Rule not found: ");
                push_str(&mut v, s.as_str());
            },
            RuleEngineError::EvaluationError(s) => {
                push_str(&mut v, "Evaluation error: ");
                push_str(&mut v, s.as_str());
            },
            RuleEngineError::InvalidConfiguration(s) => {
                push_str(&mut v, "Invalid rule configuration: ");
                push_str(&mut v, s.as_str());
            },
            RuleEngineError::JsonLogicError(s) => {
                push_str(&mut v, "JSON Logic error: ");
                push_str(&mut v, s.as_str());
            },
            RuleEngineError::ContextError(s) => {
                push_str(&mut v, "Context error: ");
                push_str(&mut v, s.as_str());
            },
            RuleEngineError::MultipleRuleFailures(failures) => {
                push_str(&mut v, "Multiple rule failures during parallel execution: ");
                let ghost fv = failures@;
                assert(fv.subrange(0, fv.len() as int) =~= fv);
                let mut i: usize = 0;
                while i < failures.len()
                    invariant
                        *self == RuleEngineError::MultipleRuleFailures(*failures),
                        fv == failures@,
                        0 <= i <= fv.len(),
                        v@ + failures_text(fv.subrange(i as int, fv.len() as int))
                            == "Multiple rule failures during parallel execution: "@ + failures_text(fv),
                    decreases fv.len() - i,
                {
                    proof {
                        assert(decreases_to!(*self => (*self)->MultipleRuleFailures_0));
                        assert(decreases_to!(*failures => failures@));
                        assert(decreases_to!(failures@ => failures@[i as int]));
                        assert(decreases_to!(failures@[i as int] => failures@[i as int].1));
                        assert(decreases_to!(*self => failures@[i as int].1));
                    }
                    let ghost cur = fv.subrange(i as int, fv.len() as int);
                    let ghost rest = fv.subrange(i + 1, fv.len() as int);
                    assert(cur.subrange(1, cur.len() as int) =~= rest);
                    assert(cur[0] == fv[i as int]);
                    push_str(&mut v, failures[i].0.as_str());
                    push_str(&mut v, ": ");
                    let t = failures[i].1.to_text();
                    push_str(&mut v, t.as_str());
                    if i + 1 < failures.len() {
                        push_str(&mut v, "; ");
                    }
                    i = i + 1;
                    proof {
                        if rest.len() == 0 {
                            assert(rest =~= Seq::<(String, RuleEngineError)>::empty());
                        }
                    }
                }
                assert(fv.subrange(fv.len() as int, fv.len() as int) =~= Seq::<(String, RuleEngineError)>::empty());
            },
        }
        proof {
            reveal_strlit("");
        }
        string_from_chars(v.as_slice())
    }
}

} // verus!
