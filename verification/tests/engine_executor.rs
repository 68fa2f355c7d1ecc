use rule_engine::engine::context::ExecutionContext;
use rule_engine::engine::dag::RuleNode;
use rule_engine::engine::error::RuleEngineError;
use rule_engine::engine::executor::ExecutionRun;
use rule_engine::json::Json;

fn rule(id: &str, inputs: &[&str], outputs: &[&str], order: i32) -> RuleNode {
    RuleNode::new(
        id.to_string(),
        inputs.iter().map(|s| s.to_string()).collect(),
        outputs.iter().map(|s| s.to_string()).collect(),
        order,
    )
}

fn int_at(data: &Json, name: &str) -> i64 {
    match data {
        Json::Object(m) => match m.iter().find(|(k, _)| k == name) {
            Some((_, Json::Int(i))) => *i,
            _ => panic!("no integer {}", name),
        },
        _ => panic!("not an object"),
    }
}

/// Runs the rules, evaluating each with `eval` (rule id and data).
fn run(
    rules: &Vec<RuleNode>,
    ctx: ExecutionContext,
    parallel: bool,
    eval: impl Fn(&str, &Json) -> Result<Json, String>,
) -> (Vec<String>, Result<rule_engine::engine::executor::ExecutionResult, RuleEngineError>) {
    let mut order = Vec::new();
    let mut run = ExecutionRun::start(rules, &ctx, parallel).unwrap();
    while let Some((id, data)) = run.next_rule() {
        order.push(id.clone());
        run.record(eval(&id, &data), 1);
    }
    (order, run.finish(10))
}

#[test]
fn executor_chained_rules_see_earlier_outputs() {
    let rules = vec![rule("double", &["x"], &["y"], 0), rule("add_ten", &["y"], &["z"], 1)];
    let ctx = ExecutionContext::new(vec![("x".to_string(), Json::Int(5))]);
    let (order, result) = run(&rules, ctx, true, |id, data| match id {
        "double" => Ok(Json::Int(int_at(data, "x") * 2)),
        _ => Ok(Json::Int(int_at(data, "y") + 10)),
    });
    assert_eq!(order, vec!["double".to_string(), "add_ten".to_string()]);
    let result = result.unwrap();
    assert_eq!(result.get_output("y"), Some(&Json::Int(10)));
    assert_eq!(result.get_output("z"), Some(&Json::Int(20)));
    assert_eq!(result.rule_results.len(), 2);
    assert_eq!(result.get_result("add_ten").unwrap().outputs, vec![("z".to_string(), Json::Int(20))]);
    assert_eq!(result.levels.len(), 2);
    assert_eq!(result.total_time_ns, 10);
}

#[test]
fn executor_parallel_level_reads_the_same_context() {
    let rules = vec![rule("a", &["x"], &["p"], 0), rule("b", &["x"], &["q"], 1), rule("c", &["p", "q"], &["r"], 2)];
    let ctx = ExecutionContext::new(vec![("x".to_string(), Json::Int(1))]);
    let (order, result) = run(&rules, ctx, true, |id, data| match id {
        "a" => Ok(Json::Int(int_at(data, "x") + 1)),
        "b" => Ok(Json::Int(int_at(data, "x") + 2)),
        _ => Ok(Json::Int(int_at(data, "p") * int_at(data, "q"))),
    });
    assert_eq!(order, vec!["a".to_string(), "b".to_string(), "c".to_string()]);
    let result = result.unwrap();
    assert_eq!(result.get_output("r"), Some(&Json::Int(6)));
}

#[test]
fn executor_parallel_failures_are_collected() {
    let rules = vec![rule("a", &["x"], &["p"], 0), rule("b", &["x"], &["q"], 1), rule("c", &["x"], &["s"], 2)];
    let ctx = ExecutionContext::new(vec![("x".to_string(), Json::Int(1))]);
    let (order, result) = run(&rules, ctx, true, |id, _| if id == "b" { Ok(Json::Null) } else { Err("boom".to_string()) });
    assert_eq!(order.len(), 3);
    match result {
        Err(RuleEngineError::MultipleRuleFailures(v)) => {
            assert_eq!(v.len(), 2);
            assert_eq!(v[0].0, "a");
            assert!(matches!(&v[0].1, RuleEngineError::EvaluationError(t) if t == "Rule 'a' evaluation failed: boom"));
            assert_eq!(v[1].0, "c");
        },
        other => panic!("unexpected {:?}", other),
    }
}

#[test]
fn executor_sequential_failure_stops_the_run() {
    let rules = vec![rule("a", &["x"], &["p"], 0), rule("b", &["x"], &["q"], 1), rule("c", &["p"], &["s"], 2)];
    let ctx = ExecutionContext::new(vec![("x".to_string(), Json::Int(1))]);
    let (order, result) = run(&rules, ctx, false, |id, _| if id == "a" { Err("bad".to_string()) } else { Ok(Json::Int(0)) });
    assert_eq!(order, vec!["a".to_string()]);
    match result {
        Err(RuleEngineError::EvaluationError(t)) => assert_eq!(t, "Rule 'a' evaluation failed: bad"),
        other => panic!("unexpected {:?}", other),
    }
}

#[test]
fn executor_missing_dependency_is_refused() {
    let rules = vec![rule("a", &["nothere"], &["p"], 0)];
    let ctx = ExecutionContext::new(vec![("x".to_string(), Json::Int(1))]);
    match ExecutionRun::start(&rules, &ctx, true) {
        Err(RuleEngineError::MissingDependencies(m)) => {
            assert_eq!(m, vec![("a".to_string(), "nothere".to_string())]);
        },
        other => panic!("unexpected {:?}", other.map(|_| ())),
    }
}

#[test]
fn executor_dependency_satisfied_by_other_rule() {
    let rules = vec![rule("a", &["x"], &["p"], 0), rule("b", &["p"], &["q"], 1)];
    let ctx = ExecutionContext::new(vec![("x".to_string(), Json::Int(1))]);
    assert!(ExecutionRun::start(&rules, &ctx, true).is_ok());
}

#[test]
fn test_missing_dependency_error() {
    let rule = rule("r1", &["missing_input"], &["result"], 0);
    let context = ExecutionContext::from_json(&Json::Object(vec![("other_input".to_string(), Json::Int(5))]));
    let result = ExecutionRun::start(&vec![rule], &context, true);
    assert!(result.is_err());
    match result {
        Err(RuleEngineError::MissingDependencies(deps)) => {
            assert_eq!(deps.len(), 1);
            assert!(deps[0].1.contains("missing_input"));
        },
        Err(other) => panic!("Expected MissingDependencies error, got: {:?}", other),
        Ok(_) => panic!("Expected MissingDependencies error"),
    }
}
