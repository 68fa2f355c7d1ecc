use rule_engine::engine::dag::{RuleDag, RuleNode};
use rule_engine::engine::error::RuleEngineError;

fn strings(v: &[&str]) -> Vec<String> {
    v.iter().map(|s| s.to_string()).collect()
}

fn make_rule(id: &str, inputs: &[&str], outputs: &[&str]) -> RuleNode {
    RuleNode::new(id.to_string(), strings(inputs), strings(outputs), 0)
}

fn diamond() -> Vec<RuleNode> {
    vec![
        make_rule("r1", &["input"], &["a"]),
        make_rule("r2", &["a"], &["b"]),
        make_rule("r3", &["a"], &["c"]),
        make_rule("r4", &["b", "c"], &["d"]),
    ]
}

#[test]
fn test_simple_dag() {
    let rules = vec![
        make_rule("r1", &["input"], &["a"]),
        make_rule("r2", &["a"], &["b"]),
        make_rule("r3", &["b"], &["c"]),
    ];
    let dag = RuleDag::from_rules(&rules).unwrap();
    let order = dag.topological_order().unwrap();
    assert_eq!(order.len(), 3);
}

#[test]
fn test_parallel_execution_levels() {
    let dag = RuleDag::from_rules(&diamond()).unwrap();
    let levels = dag.execution_levels().unwrap();
    assert_eq!(levels.len(), 3);
    assert_eq!(levels[0].len(), 1);
    assert_eq!(levels[1].len(), 2);
    assert_eq!(levels[2].len(), 1);
}

#[test]
fn test_find_missing_inputs() {
    let rules = vec![
        make_rule("r1", &["external_input"], &["a"]),
        make_rule("r2", &["a", "missing_input"], &["b"]),
    ];
    let dag = RuleDag::from_rules(&rules).unwrap();
    let available = strings(&["external_input"]);
    let missing = dag.find_missing_inputs(&available);
    assert_eq!(missing.len(), 1);
    assert_eq!(missing[0].1, "missing_input");
}

#[test]
fn test_execution_plan() {
    let dag = RuleDag::from_rules(&diamond()).unwrap();
    let plan = dag.execution_plan().unwrap();
    assert_eq!(plan.total_rules, 4);
    assert_eq!(plan.total_stages, 3);
    assert!(!plan.stages[0].parallel);
    assert!(plan.stages[1].parallel);
    assert!(!plan.stages[2].parallel);
}

#[test]
fn test_to_dot() {
    let rules = vec![make_rule("r1", &["input"], &["a"]), make_rule("r2", &["a"], &["b"])];
    let dag = RuleDag::from_rules(&rules).unwrap();
    let dot = dag.to_dot();
    assert!(dot.contains("digraph RuleDag"));
    assert!(dot.contains("->"));
    assert!(dot.contains("[in:"));
    assert!(dot.contains("[out:"));
}

#[test]
fn test_to_mermaid() {
    let rules = vec![make_rule("r1", &["input"], &["a"]), make_rule("r2", &["a"], &["b"])];
    let dag = RuleDag::from_rules(&rules).unwrap();
    let mermaid = dag.to_mermaid();
    assert!(mermaid.contains("graph TD"));
    assert!(mermaid.contains("-->"));
}

#[test]
fn test_to_ascii() {
    let rules = vec![make_rule("r1", &["input"], &["a"]), make_rule("r2", &["a"], &["b"])];
    let dag = RuleDag::from_rules(&rules).unwrap();
    let ascii = dag.to_ascii().unwrap();
    assert!(ascii.contains("Execution Plan"));
    assert!(ascii.contains("Stage 0"));
    assert!(ascii.contains("Stage 1"));
    assert!(ascii.contains("inputs:"));
    assert!(ascii.contains("outputs:"));
}

// Laws on concrete values, errors and edge cases.

#[test]
fn dag_topological_order_puts_producers_first() {
    let dag = RuleDag::from_rules(&diamond()).unwrap();
    let order = dag.topological_order().unwrap();
    let pos = |id: &str| order.iter().position(|x| x == id).unwrap();
    assert!(pos("r1") < pos("r2"));
    assert!(pos("r1") < pos("r3"));
    assert!(pos("r2") < pos("r4"));
    assert!(pos("r3") < pos("r4"));
}

#[test]
fn dag_levels_are_exact() {
    let dag = RuleDag::from_rules(&diamond()).unwrap();
    let mut levels = dag.execution_levels().unwrap();
    for level in levels.iter_mut() {
        level.sort();
    }
    assert_eq!(levels, vec![strings(&["r1"]), strings(&["r2", "r3"]), strings(&["r4"])]);
    assert_eq!(dag.rule_levels(), vec![0, 1, 1, 2]);
}

#[test]
fn dag_levels_are_sorted_by_order_index() {
    let rules = vec![
        RuleNode::new("x".to_string(), strings(&["i"]), strings(&["a"]), 5),
        RuleNode::new("y".to_string(), strings(&["i"]), strings(&["b"]), 1),
    ];
    let dag = RuleDag::from_rules(&rules).unwrap();
    assert_eq!(dag.execution_levels().unwrap(), vec![strings(&["y", "x"])]);
}

#[test]
fn dag_cycle_is_an_error() {
    let rules = vec![make_rule("r1", &["b"], &["a"]), make_rule("r2", &["a"], &["b"])];
    match RuleDag::from_rules(&rules) {
        Err(RuleEngineError::CyclicDependency(msg)) => assert!(msg.starts_with("Cycle detected at rule: ")),
        other => panic!("Expected a cycle, got {:?}", other.is_ok()),
    }
}

#[test]
fn dag_duplicate_output_is_an_error() {
    let rules = vec![make_rule("r1", &["i"], &["a"]), make_rule("r2", &["j"], &["a"])];
    match RuleDag::from_rules(&rules) {
        Err(RuleEngineError::InvalidConfiguration(msg)) => {
            assert_eq!(msg, "Multiple rules produce the same output: a")
        }
        other => panic!("Expected a configuration error, got {:?}", other.is_ok()),
    }
}

#[test]
fn dag_dependencies_and_dependents() {
    let dag = RuleDag::from_rules(&diamond()).unwrap();
    let r4 = "r4".to_string();
    let r1 = "r1".to_string();
    let mut deps = dag.dependencies(&r4);
    deps.sort();
    assert_eq!(deps, strings(&["r2", "r3"]));
    let mut dents = dag.dependents(&r1);
    dents.sort();
    assert_eq!(dents, strings(&["r2", "r3"]));
    assert!(dag.dependencies(&r1).is_empty());
}

#[test]
fn dag_lookup() {
    let dag = RuleDag::from_rules(&diamond()).unwrap();
    assert_eq!(dag.len(), 4);
    assert!(!dag.is_empty());
    assert!(dag.contains(&"r2".to_string()));
    assert!(!dag.contains(&"zz".to_string()));
    assert_eq!(dag.get_rule(&"r3".to_string()).unwrap().outputs, strings(&["c"]));
    assert!(dag.get_rule(&"zz".to_string()).is_none());
    assert_eq!(dag.rule_ids(), strings(&["r1", "r2", "r3", "r4"]));
}

#[test]
fn dag_empty() {
    let dag = RuleDag::new();
    assert!(dag.is_empty());
    assert!(dag.topological_order().unwrap().is_empty());
    assert!(dag.execution_levels().unwrap().is_empty());
    let plan = dag.execution_plan().unwrap();
    assert_eq!(plan.total_rules, 0);
    assert_eq!(plan.total_stages, 0);
}

#[test]
fn dag_plan_lists_dependencies() {
    let dag = RuleDag::from_rules(&diamond()).unwrap();
    let plan = dag.execution_plan().unwrap();
    let last = &plan.stages[2].rules[0];
    assert_eq!(last.id, "r4");
    let mut deps = last.dependencies.clone();
    deps.sort();
    assert_eq!(deps, strings(&["r2", "r3"]));
    assert_eq!(plan.stages[1].level, 1);
}

#[test]
fn dag_mermaid_exact() {
    let rules = vec![make_rule("r1", &["input"], &["a"]), make_rule("r2", &["a"], &["b"])];
    let dag = RuleDag::from_rules(&rules).unwrap();
    let m = dag.to_mermaid();
    assert!(m.starts_with("graph TD\n"));
    assert!(m.contains("r1 --> r2"));
}
