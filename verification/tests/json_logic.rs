use rule_engine::json_logic::config::{parse_unsigned, Config};
use rule_engine::json_logic::opcode::OpCode;
use rule_engine::json_logic::tiered::{CacheStats, CompilationTier};

fn env(pairs: &[(&str, &str)]) -> Vec<(String, String)> {
    pairs.iter().map(|(k, v)| (k.to_string(), v.to_string())).collect()
}

#[test]
fn test_default_config() {
    let config = Config::default();
    assert_eq!(config.bytecode_promotion_threshold, 100);
    assert_eq!(config.bytecode_min_complexity, 5);
    assert_eq!(config.bytecode_stack_limit, 65_536);
    assert_eq!(config.eval_work_queue_limit, 1_000_000);
    assert_eq!(config.eval_max_steps, 1_000_000);
}

#[test]
fn test_global_config() {
    let config = Config::from_env(&Vec::new());
    assert!(config.bytecode_promotion_threshold > 0);
}

#[test]
fn json_logic_from_env_reads_numbers() {
    let config = Config::from_env(&env(&[
        ("RULE_ENGINE_BYTECODE_PROMOTION_THRESHOLD", "7"),
        ("RULE_ENGINE_EVAL_MAX_STEPS", "+42"),
        ("RULE_ENGINE_BYTECODE_STACK_LIMIT", "not a number"),
        ("RULE_ENGINE_EVAL_WORK_QUEUE_LIMIT", " 5"),
        ("OTHER", "1"),
    ]));
    assert_eq!(config.bytecode_promotion_threshold, 7);
    assert_eq!(config.eval_max_steps, 42);
    assert_eq!(config.bytecode_stack_limit, 65_536);
    assert_eq!(config.eval_work_queue_limit, 1_000_000);
    assert_eq!(config.bytecode_min_complexity, 5);
}

#[test]
fn json_logic_parse_unsigned_edges() {
    assert_eq!(parse_unsigned("0", u64::MAX), Some(0));
    assert_eq!(parse_unsigned("18446744073709551615", u64::MAX), Some(u64::MAX));
    assert_eq!(parse_unsigned("18446744073709551616", u64::MAX), None);
    assert_eq!(parse_unsigned("300", 255), None);
    assert_eq!(parse_unsigned("255", 255), Some(255));
    assert_eq!(parse_unsigned("+", u64::MAX), None);
    assert_eq!(parse_unsigned("", u64::MAX), None);
    assert_eq!(parse_unsigned("-1", u64::MAX), None);
    assert_eq!(parse_unsigned("12a", u64::MAX), None);
    for s in ["0", "17", "+9", "007", "99999999999999999999", "x", "1 "] {
        assert_eq!(parse_unsigned(s, u64::MAX), s.parse::<u64>().ok(), "for {:?}", s);
    }
}

#[test]
fn json_logic_opcode_round_trip() {
    for b in 0u8..=255 {
        if let Some(op) = OpCode::from_byte(b) {
            assert_eq!(op.to_byte(), b);
        }
    }
    assert_eq!(OpCode::from_byte(255), Some(OpCode::Return));
    assert_eq!(OpCode::from_byte(33), Some(OpCode::Div));
    assert_eq!(OpCode::from_byte(6), None);
    assert_eq!(OpCode::In.to_byte(), 60);
}

#[test]
fn json_logic_tier_and_stats_defaults() {
    assert_eq!(CompilationTier::default(), CompilationTier::Ast);
    let s = CacheStats::default();
    assert_eq!(s.total_rules + s.tier0_rules + s.tier1_rules + s.tier2_rules, 0);
    assert_eq!(s.total_evaluations, 0);
}

use rule_engine::json::Json;
use rule_engine::json_logic::ast::{CompiledExpr, Expr, VarExpr};
use rule_engine::json_logic::compiler::{Compiler, JsonLogicError};

#[test]
fn test_var_path_segments() {
    let var = VarExpr::new("user.profile.age");
    assert_eq!(var.path_segments(), vec!["user", "profile", "age"]);
    let empty = VarExpr::new("");
    assert!(empty.path_segments().is_empty());
}

#[test]
fn test_collect_variables() {
    let expr = Expr::If(vec![
        Expr::Gt(vec![Expr::var("age"), Expr::literal(Json::Int(60))]),
        Expr::Mul(vec![Expr::var("base"), Expr::literal(Json::Float("1.2".to_string()))]),
        Expr::var("base"),
    ]);
    let vars = expr.collect_variables();
    assert!(vars.contains(&"age"));
    assert!(vars.contains(&"base"));
    assert_eq!(vars, vec!["age", "base", "base"]);
}

#[test]
fn test_node_count() {
    let simple = Expr::literal(Json::Int(42));
    assert_eq!(simple.node_count(), 1);
    let complex = Expr::Add(vec![
        Expr::var("a"),
        Expr::Mul(vec![Expr::var("b"), Expr::literal(Json::Int(2))]),
    ]);
    assert_eq!(complex.node_count(), 5);
}

#[test]
fn json_logic_ast_edges() {
    assert_eq!(VarExpr::new("a..b").path_segments(), vec!["a", "", "b"]);
    let e = Expr::Substr(
        Box::new(Expr::var("s")),
        Box::new(Expr::literal(Json::Int(0))),
        Some(Box::new(Expr::Var(VarExpr::with_default("", Json::Null)))),
    );
    assert_eq!(e.node_count(), 4);
    assert_eq!(e.collect_variables(), vec!["s"]);
    assert!(Expr::literal(Json::Null).is_literal());
    assert!(Expr::var("x").is_var());
    assert_eq!(Expr::literal(Json::Bool(true)).as_literal(), Some(&Json::Bool(true)));
    let c = CompiledExpr::new(e);
    assert_eq!(c.node_count, 4);
    assert_eq!(c.variables, vec!["s".to_string()]);
}


fn var_ref(p: &str) -> Expr {
    Expr::var(p)
}

fn int_lit(i: i64) -> Expr {
    Expr::literal(Json::Int(i))
}

fn float_lit(t: &str) -> Expr {
    Expr::literal(Json::Float(t.to_string()))
}

#[test]
fn test_compile_literal() {
    let mut compiler = Compiler::new();
    let bytecode = compiler.compile(&int_lit(42)).unwrap();
    assert!(bytecode.size() > 0);
    assert_eq!(bytecode.constant_count(), 1);
}

#[test]
fn test_compile_var() {
    let mut compiler = Compiler::new();
    let bytecode = compiler.compile(&var_ref("age")).unwrap();
    assert_eq!(bytecode.variable_count(), 1);
    assert!(bytecode.variable_index("age").is_some());
}

#[test]
fn test_compile_comparison() {
    let mut compiler = Compiler::new();
    let bytecode = compiler.compile(&Expr::Gt(vec![var_ref("age"), int_lit(60)])).unwrap();
    assert_eq!(bytecode.variable_count(), 1);
    assert_eq!(bytecode.constant_count(), 1);
}

#[test]
fn test_compile_arithmetic() {
    let mut compiler = Compiler::new();
    let bytecode = compiler.compile(&Expr::Mul(vec![var_ref("base"), float_lit("1.2")])).unwrap();
    assert_eq!(bytecode.variable_count(), 1);
    assert_eq!(bytecode.constant_count(), 1);
}

#[test]
fn test_compile_if() {
    let expr = Expr::If(vec![
        Expr::Gt(vec![var_ref("age"), int_lit(60)]),
        Expr::Mul(vec![var_ref("base"), float_lit("1.2")]),
        var_ref("base"),
    ]);
    let mut compiler = Compiler::new();
    let bytecode = compiler.compile(&expr).unwrap();
    assert_eq!(bytecode.variable_count(), 2);
    assert!(bytecode.size() > 10);
    assert_eq!(
        bytecode.bytecode,
        vec![2, 0, 0, 1, 0, 0, 16, 21, 51, 10, 0, 2, 1, 0, 1, 1, 0, 32, 50, 3, 0, 2, 1, 0, 255]
    );
}

#[test]
fn json_logic_compile_and_short_circuits() {
    let mut compiler = Compiler::new();
    let b = compiler.compile(&Expr::And(vec![var_ref("a"), var_ref("b")])).unwrap();
    assert_eq!(b.bytecode, vec![2, 0, 0, 3, 21, 51, 4, 0, 4, 2, 1, 0, 255]);
    assert_eq!(b.variable_names, vec!["a".to_string(), "b".to_string()]);
}

#[test]
fn json_logic_compile_constants_are_shared() {
    let mut compiler = Compiler::new();
    let b = compiler.compile(&Expr::Add(vec![int_lit(1), int_lit(2), int_lit(1)])).unwrap();
    assert_eq!(b.constants, vec![Json::Int(1), Json::Int(2)]);
    assert_eq!(b.bytecode, vec![1, 0, 0, 1, 1, 0, 30, 1, 0, 0, 30, 255]);
}

#[test]
fn json_logic_compile_errors() {
    let mut compiler = Compiler::new();
    match compiler.compile(&Expr::Add(vec![])) {
        Err(JsonLogicError::InvalidArgumentCount { op, expected, actual }) => {
            assert_eq!(op, "Add");
            assert_eq!(expected, "at least 1");
            assert_eq!(actual, 0);
        }
        other => panic!("Expected an argument count error, got {:?}", other),
    }
    match compiler.compile(&Expr::Log(Box::new(int_lit(1)))) {
        Err(JsonLogicError::CompilationError(msg)) => assert_eq!(msg, "Operation not supported in bytecode mode"),
        other => panic!("Expected a compilation error, got {:?}", other),
    }
    match compiler.compile(&Expr::Var(VarExpr::new(""))) {
        Err(JsonLogicError::CompilationError(msg)) => assert_eq!(msg, "Empty var path not supported in bytecode"),
        other => panic!("Expected a compilation error, got {:?}", other),
    }
}

use rule_engine::json_logic::evaluator::get_variable;

#[test]
fn json_logic_get_variable_paths() {
    let data = Json::Object(vec![
        ("user".to_string(), Json::Object(vec![("age".to_string(), Json::Int(30))])),
        ("items".to_string(), Json::Array(vec![Json::Str("a".to_string()), Json::Str("b".to_string())])),
    ]);
    assert_eq!(get_variable("user.age", &data), Some(Json::Int(30)));
    assert_eq!(get_variable("items.1", &data), Some(Json::Str("b".to_string())));
    assert_eq!(get_variable("items.2", &data), None);
    assert_eq!(get_variable("user.name", &data), None);
    assert_eq!(get_variable("", &data), Some(data.duplicate()));
}

use rule_engine::json_logic::tiered::{CompiledRule, RuleCache};

fn times_two() -> Expr {
    Expr::Mul(vec![Expr::var("x"), Expr::literal(Json::Int(2))])
}

#[test]
fn test_compiled_rule_starts_at_tier0() {
    let rule = CompiledRule::new(times_two());
    assert_eq!(rule.tier(), CompilationTier::Ast);
    assert_eq!(rule.eval_count(), 0);
}

#[test]
fn test_rule_cache_force_compile() {
    let mut cache = RuleCache::new();
    cache.force_compile("rule1", times_two()).unwrap();
    let stats = cache.stats();
    assert_eq!(stats.tier1_rules, 1);
}

#[test]
fn tiered_promotion_after_threshold_evaluations() {
    let mut cache = RuleCache::with_threshold(5);
    for i in 0..10 {
        cache.note_evaluation("rule1", times_two());
        let rule = cache.get("rule1").unwrap();
        assert_eq!(rule.eval_count(), i + 1);
        if i + 1 < 5 {
            assert_eq!(rule.tier(), CompilationTier::Ast);
        } else {
            assert_eq!(rule.tier(), CompilationTier::Bytecode);
            assert!(rule.bytecode().is_some());
        }
    }
    let stats = cache.stats();
    assert_eq!(stats.tier1_rules, 1);
    assert_eq!(stats.tier0_rules, 0);
    assert_eq!(stats.total_evaluations, 10);
}

#[test]
fn tiered_cache_stats_and_remove() {
    let mut cache = RuleCache::with_threshold(100);
    cache.note_evaluation("rule1", times_two());
    cache.note_evaluation("rule2", Expr::Add(vec![Expr::var("a"), Expr::var("b")]));
    cache.force_compile("rule1", times_two()).unwrap();
    let stats = cache.stats();
    assert_eq!(stats.total_rules, 2);
    assert_eq!(stats.tier0_rules, 1);
    assert_eq!(stats.tier1_rules, 1);
    assert_eq!(stats.total_evaluations, 2);
    assert_eq!(cache.len(), 2);
    assert!(cache.remove("rule1"));
    assert_eq!(cache.len(), 1);
    assert!(!cache.remove("nonexistent"));
    cache.clear();
    assert!(cache.is_empty());
}

#[test]
fn tiered_manual_promotion_keeps_count() {
    let mut rule = CompiledRule::new(times_two());
    rule.count_evaluation();
    rule.promote_to_bytecode().unwrap();
    assert_eq!(rule.tier(), CompilationTier::Bytecode);
    assert_eq!(rule.eval_count(), 1);
    assert!(rule.should_promote_at(0) == false);
    let mut fresh = CompiledRule::new(times_two());
    assert!(fresh.should_promote_at(0));
    fresh.note_evaluation(1);
    assert_eq!(fresh.tier(), CompilationTier::Bytecode);
}
