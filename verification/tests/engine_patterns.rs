use rule_engine::engine::number_text::fraction_text;
use rule_engine::engine::pattern_analyzer::{
    AggregationType, CalculationType, ConditionalType, LookupType, PatternAnalyzer, PatternCategory, Rule,
    SuggestionPriority,
};
use rule_engine::json::Json;

fn json(text: &str) -> Json {
    from_value(&serde_json::from_str(text).unwrap())
}

fn from_value(v: &serde_json::Value) -> Json {
    match v {
        serde_json::Value::Null => Json::Null,
        serde_json::Value::Bool(b) => Json::Bool(*b),
        serde_json::Value::Number(n) => match n.as_i64() {
            Some(i) => Json::Int(i),
            None => Json::Float(n.to_string()),
        },
        serde_json::Value::String(s) => Json::Str(s.clone()),
        serde_json::Value::Array(items) => Json::Array(items.iter().map(from_value).collect()),
        serde_json::Value::Object(m) => {
            Json::Object(m.iter().map(|(k, v)| (k.clone(), from_value(v))).collect())
        }
    }
}

fn rule(id: &str, expr: &str, output: &str, deps: &[&str]) -> Rule {
    Rule {
        id: id.to_string(),
        expression: json(expr),
        output_attribute: output.to_string(),
        dependencies: deps.iter().map(|s| s.to_string()).collect(),
    }
}

#[test]
fn test_detect_multiplication_pattern() {
    let analyzer = PatternAnalyzer::new();
    let expr = json(r#"{"*": [{"var": "base"}, {"var": "factor"}]}"#);
    let patterns = analyzer.detect_patterns_from_expression(&expr);
    assert!(patterns.contains(&PatternCategory::Calculation(CalculationType::Multiplication)));
}

#[test]
fn test_detect_percentage_pattern() {
    let analyzer = PatternAnalyzer::new();
    let expr = json(r#"{"*": [{"var": "price"}, 0.15]}"#);
    let patterns = analyzer.detect_patterns_from_expression(&expr);
    assert!(patterns.contains(&PatternCategory::Calculation(CalculationType::Percentage)));
}

#[test]
fn test_detect_tiered_pattern() {
    let analyzer = PatternAnalyzer::new();
    let expr = json(
        r#"{"if": [{"<": [{"var": "age"}, 25]}, 1.5, {"<": [{"var": "age"}, 35]}, 1.2,
                   {"<": [{"var": "age"}, 50]}, 1.0, 0.9]}"#,
    );
    let patterns = analyzer.detect_patterns_from_expression(&expr);
    assert!(patterns.contains(&PatternCategory::Conditional(ConditionalType::Tiered)));
}

#[test]
fn test_semantic_tags() {
    let analyzer = PatternAnalyzer::new();
    let tags = analyzer.extract_semantic_tags("calculate_premium", "base_premium");
    assert!(tags.contains(&"pricing".to_string()));
}

#[test]
fn test_complexity_analysis() {
    let analyzer = PatternAnalyzer::new();
    let expr = json(r#"{"if": [{"<": [{"var": "x"}, 10]}, {"*": [{"var": "x"}, 2]}, {"var": "x"}]}"#);
    let complexity = analyzer.analyze_complexity(&expr);
    assert!(complexity.condition_count >= 1);
    assert!(complexity.variable_count >= 2);
}

// Exact results.

#[test]
fn patterns_are_sorted_and_unique() {
    let analyzer = PatternAnalyzer::new();
    let expr = json(r#"{"and": [{"<": [{"var": "a.b"}, 1]}, {">": [{"var": "c"}, 2]}, {"max": [1, 2]}]}"#);
    let patterns = analyzer.detect_patterns_from_expression(&expr);
    assert_eq!(
        patterns,
        vec![
            PatternCategory::Aggregation(AggregationType::Max),
            PatternCategory::Conditional(ConditionalType::MultiCondition),
            PatternCategory::Conditional(ConditionalType::ThresholdBased),
            PatternCategory::Lookup(LookupType::NestedAccess),
            PatternCategory::Lookup(LookupType::VariableAccess),
        ]
    );
}

#[test]
fn complexity_counts_exactly() {
    let analyzer = PatternAnalyzer::new();
    let expr = json(r#"{"if": [{"<": [{"var": "x"}, 10]}, {"*": [{"var": "x"}, 2]}, {"var": "x"}]}"#);
    let c = analyzer.analyze_complexity(&expr);
    assert_eq!(c.total_nodes, 14);
    assert_eq!(c.max_depth, 5);
    assert_eq!(c.variable_count, 3);
    assert_eq!(c.operator_count, 6);
    assert_eq!(c.condition_count, 1);
    assert_eq!(c.loop_count, 0);
    assert_eq!(c.cyclomatic_complexity, 2);
}

#[test]
fn fraction_text_reads_decimal_literals() {
    for (t, f) in [
        ("0.15", true),
        ("1.0", false),
        ("0", false),
        ("0.0", false),
        ("-0.5", false),
        ("+0.5", true),
        ("5e-1", true),
        ("1e-7", true),
        ("0.001e3", false),
        ("0.0001e3", true),
        ("12", false),
        (".5", true),
        ("abc", false),
        ("1e999999999999999999999999999999999999", false),
        ("1e-999999999999999999999999999999999999", true),
    ] {
        assert_eq!(fraction_text(t), f, "for {}", t);
    }
}

#[test]
fn summary_suggestions_and_facts() {
    let analyzer = PatternAnalyzer::new();
    let r = rule("price_rule", r#"{"*": [{"var": "price"}, 0.15]}"#, "final_price", &["a", "b", "c", "d"]);
    let patterns = analyzer.detect_patterns_from_expression(&r.expression);
    assert_eq!(
        analyzer.generate_natural_summary(&r, &patterns),
        "Computes 'final_price' using a, b, c and 1 more inputs via percentage calculation"
    );
    let c = analyzer.analyze_complexity(&r.expression);
    assert!(analyzer.generate_suggestions(&r, &patterns, &c).is_empty());
    assert_eq!(analyzer.generate_rule_facts(&r, &patterns, &c), vec!["Applies percentage-based calculation"]);

    let constant = rule("k", "5", "out", &[]);
    let p2 = analyzer.detect_patterns_from_expression(&constant.expression);
    let c2 = analyzer.analyze_complexity(&constant.expression);
    assert_eq!(analyzer.generate_natural_summary(&constant, &p2), "Computes 'out'");
    assert_eq!(
        analyzer.generate_rule_facts(&constant, &p2, &c2),
        vec![
            "Simplest possible rule - single value or variable",
            "Constant rule - returns the same value every time",
            "Input rule - no dependencies on other rules",
        ]
    );
    let many: Vec<String> = (0..11).map(|i| format!("d{}", i)).collect();
    let busy = Rule { id: "x".into(), expression: Json::Null, output_attribute: "y".into(), dependencies: many };
    let s = analyzer.generate_suggestions(&busy, &p2, &c2);
    assert_eq!(s.len(), 1);
    assert_eq!(s[0].priority, SuggestionPriority::Medium);
    assert_eq!(s[0].description, "This rule depends on 11 other values. Consider intermediate calculations.");
}

#[test]
fn semantic_tags_exact() {
    let analyzer = PatternAnalyzer::new();
    assert_eq!(
        analyzer.extract_semantic_tags("calculate_premium", "base_premium"),
        vec!["pricing", "calculate", "premium"]
    );
    assert_eq!(analyzer.extract_semantic_tags("riskScore", "x"), vec!["risk-assessment", "risk", "core"]);
    let tags = analyzer.extract_semantic_tags("customer_discount_eligible_premium_coverage_check", "policy");
    assert_eq!(tags.len(), 5);
}

#[test]
fn patterns_recursive_in_traversal_order() {
    let analyzer = PatternAnalyzer::new();
    let expr = json(r#"{"*": [{"var": "price"}, 0.15]}"#);
    let mut patterns = vec![PatternCategory::Lookup(LookupType::VariableAccess)];
    analyzer.detect_patterns_recursive(&expr, &mut patterns);
    assert_eq!(
        patterns,
        vec![
            PatternCategory::Lookup(LookupType::VariableAccess),
            PatternCategory::Calculation(CalculationType::Percentage),
            PatternCategory::Lookup(LookupType::VariableAccess),
        ]
    );
}

#[test]
fn patterns_semantic_group_members() {
    let analyzer = PatternAnalyzer::new();
    let rules = vec![
        ("calc-premium".to_string(), "policy.premium".to_string()),
        ("risk-score".to_string(), "risk.score".to_string()),
        ("base-price".to_string(), "price.base".to_string()),
        ("calc-premium".to_string(), "policy.premium".to_string()),
        ("Age".to_string(), "x".to_string()),
    ];
    let groups = analyzer.semantic_group_members(&rules);
    let indices: Vec<usize> = groups.iter().map(|g| g.0).collect();
    assert_eq!(indices, vec![0, 1, 4]);
    assert_eq!(groups[0].1, vec!["base-price".to_string(), "calc-premium".to_string()]);
    assert_eq!(groups[0].2, vec!["policy.premium".to_string(), "price.base".to_string()]);
    assert_eq!(groups[1].1, vec!["risk-score".to_string()]);
    assert_eq!(groups[2].1, vec!["calc-premium".to_string()]);
}
