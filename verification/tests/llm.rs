use rule_engine::llm::anthropic::ClaudeLlmEvaluator;
use rule_engine::llm::error::LlmEvaluatorError;
use rule_engine::llm::metadata::RuleMetadata;
use rule_engine::llm::ollama::OllamaLlmEvaluator;
use rule_engine::llm::parsing::{
    boolean_signal_of, first_number_text, parse_boolean, truncate_for_error, try_parse_boolean,
    try_truncate_for_error,
};
use rule_engine::llm::prompt::{AttributeInfo, InstructionDetector, PromptBuilder};
use rule_engine::llm::response::{affirmative, code_block_json, embedded_json, number_chars};

fn parse_number(text: &str) -> Option<f64> {
    first_number_text(text).map(|t| t.parse::<f64>().unwrap())
}

#[test]
fn test_evaluator_creation() {
    let evaluator = ClaudeLlmEvaluator::new("test-key");
    assert_eq!(evaluator.name(), "anthropic-llm-evaluator");
    assert!(evaluator.is_ready());
}

#[test]
fn test_evaluator_empty_key_not_ready() {
    let evaluator = ClaudeLlmEvaluator::new("");
    assert!(!evaluator.is_ready());
}

#[test]
fn test_ollama_evaluator_creation() {
    let evaluator = OllamaLlmEvaluator::new("http://localhost:11434", "qwen2.5:7b");
    assert_eq!(evaluator.name(), "ollama-llm-evaluator");
}

#[test]
fn test_ollama_localhost() {
    // The environment's base URL, here its default.
    let evaluator = OllamaLlmEvaluator::localhost("http://localhost:11434".to_string(), "llama3.2");
    assert!(evaluator.is_ready());
    assert_eq!(evaluator.base_url(), "http://localhost:11434");
    assert_eq!(evaluator.default_model(), "llama3.2");
}

#[test]
fn test_parse_number_simple() {
    assert_eq!(parse_number("42").unwrap(), 42.0);
    assert_eq!(parse_number("-42").unwrap(), -42.0);
    assert_eq!(parse_number("42.5").unwrap(), 42.5);
    assert_eq!(parse_number("-42.5").unwrap(), -42.5);
}

#[test]
fn test_parse_number_in_text() {
    assert_eq!(parse_number("The answer is 42").unwrap(), 42.0);
    assert_eq!(parse_number("It costs $99.99").unwrap(), 99.99);
    assert_eq!(parse_number("Between 10 and 20").unwrap(), 10.0);
}

#[test]
fn test_parse_number_avoids_concatenation() {
    assert_eq!(parse_number("text-123-456").unwrap(), -123.0);
    assert_eq!(parse_number("values: 10, 20, 30").unwrap(), 10.0);
}

#[test]
fn test_parse_number_negative() {
    assert_eq!(parse_number("Temperature: -15 degrees").unwrap(), -15.0);
}

#[test]
fn test_parse_number_no_number() {
    assert!(first_number_text("no numbers here").is_none());
}

#[test]
fn test_parse_boolean_simple() {
    assert!(parse_boolean("Yes").unwrap());
    assert!(parse_boolean("true").unwrap());
    assert!(parse_boolean("TRUE").unwrap());
    assert!(!parse_boolean("No").unwrap());
    assert!(!parse_boolean("false").unwrap());
    assert!(!parse_boolean("FALSE").unwrap());
}

#[test]
fn test_parse_boolean_with_context() {
    assert!(parse_boolean("Yes, I agree").unwrap());
    assert!(parse_boolean("The answer is true.").unwrap());
    assert!(!parse_boolean("No, that's wrong").unwrap());
    assert!(!parse_boolean("The answer is false.").unwrap());
}

#[test]
fn test_parse_boolean_negation() {
    assert!(!parse_boolean("That's not true").unwrap());
    assert!(!parse_boolean("The statement is not true").unwrap());
}

#[test]
fn test_attribute_info_builder() {
    let info = AttributeInfo::new("score")
        .with_description("Overall score")
        .with_data_type("number")
        .with_example("85.5")
        .with_example("92.0")
        .with_constraints("Must be between 0 and 100");
    assert_eq!(info.name, "score");
    assert_eq!(info.description, Some("Overall score".to_string()));
    assert_eq!(info.examples.len(), 2);
}

// Further cases.

#[test]
fn llm_parse_boolean_error_message() {
    match parse_boolean("  maybe  ") {
        Err(LlmEvaluatorError::ParseError(msg)) => {
            assert_eq!(msg, "Could not determine boolean value from response: maybe")
        }
        other => panic!("Expected a parse error, got {:?}", other),
    }
}

#[test]
fn llm_boolean_signal_of_falls_back_to_words() {
    assert_eq!(boolean_signal_of("I think it is correct, yes it is"), Some(true));
    assert_eq!(boolean_signal_of("perhaps"), None);
    assert_eq!(boolean_signal_of("It isn't true at all"), Some(false));
}

#[test]
fn llm_truncate_for_error_cuts_at_100_bytes() {
    let long = "a".repeat(150);
    let t = truncate_for_error(&long);
    assert_eq!(t.len(), 103);
    assert!(t.ends_with("..."));
    assert_eq!(truncate_for_error("short"), "short");
}

#[test]
fn llm_try_truncate_refuses_a_cut_inside_a_character() {
    let text = format!("{}{}", "a".repeat(99), "é".repeat(10));
    assert!(try_truncate_for_error(&text).is_none());
    assert!(try_truncate_for_error(&"a".repeat(120)).is_some());
    assert!(try_parse_boolean(&format!("{}{}", "x".repeat(99), "é".repeat(10))).is_none());
    assert_eq!(try_parse_boolean("yes").unwrap().unwrap(), true);
}

#[test]
fn llm_anthropic_from_env() {
    assert!(ClaudeLlmEvaluator::from_env(None, "u".to_string(), "v".to_string()).is_err());
    let e = ClaudeLlmEvaluator::from_env(Some("k".to_string()), "u".to_string(), "v".to_string()).unwrap();
    assert_eq!(e.api_key(), "k");
    assert_eq!(e.api_url(), "u");
    assert_eq!(e.api_version(), "v");
    let e = ClaudeLlmEvaluator::new("k").with_api_url("x").with_api_version("y");
    assert_eq!(e.api_url(), "x");
    assert_eq!(e.api_version(), "y");
}

#[test]
fn llm_prompt_builder_and_detector() {
    let b = PromptBuilder::new().with_template("T {x}").with_examples(false);
    assert_eq!(b.custom_template, Some("T {x}".to_string()));
    assert!(!b.include_examples);
    let d = InstructionDetector::new("Respond only with the value. Respond in JSON format: {\"a\": 1}");
    assert!(d.has_output_only_instruction());
}

#[test]
fn llm_metadata_descriptions_apply_first_match() {
    let mut m = RuleMetadata::default();
    m.inputs = vec![AttributeInfo::new("a"), AttributeInfo::new("b")];
    let m = m.with_input_descriptions(vec![
        ("a".to_string(), "first".to_string()),
        ("a".to_string(), "second".to_string()),
    ]);
    assert_eq!(m.inputs[0].description, Some("first".to_string()));
    assert_eq!(m.inputs[1].description, None);
}

#[test]
fn llm_code_block_json() {
    assert_eq!(code_block_json("```json\n{\"a\": 1}\n```").unwrap(), "{\"a\": 1}");
    assert_eq!(code_block_json("  ```\n[1, 2]\n```  ").unwrap(), "[1, 2]");
    assert_eq!(code_block_json("```json {\"a\": 1}").unwrap(), "```json {\"a\": 1}");
    assert!(code_block_json("{\"a\": 1}").is_none());
}

#[test]
fn llm_embedded_json() {
    assert_eq!(embedded_json("The result is {\"score\": 85} as requested").unwrap(), "{\"score\": 85}");
    assert_eq!(embedded_json("```json\n{\"a\": 1}\n```").unwrap(), "{\"a\": 1}");
    assert!(embedded_json("no json here").is_none());
    assert_eq!(embedded_json("}{").unwrap(), "");
}

#[test]
fn llm_affirmative_and_number_chars() {
    assert!(affirmative(" TRUE "));
    assert!(affirmative("yes please"));
    assert!(affirmative("1"));
    assert!(!affirmative("10"));
    assert!(!affirmative("no"));
    assert_eq!(number_chars("The answer is -42.5 units"), "-42.5");
    assert_eq!(number_chars("v1.2-3"), "1.2-3");
}

use rule_engine::llm::config::{render_prompt, render_prompt_with_outputs};
use rule_engine::llm::prompt::{InputValue, OutputFormatInstructions, RuleEvaluationContext};

#[test]
fn test_prompt_builder_default() {
    let context = RuleEvaluationContext::new("calculate-premium")
        .with_description("Calculate insurance premium based on risk factors")
        .with_rule_type("premium-calculation")
        .with_product("auto-insurance")
        .add_input(
            AttributeInfo::new("age").with_description("Driver's age in years").with_data_type("integer"),
        )
        .add_input(
            AttributeInfo::new("driving_record")
                .with_description("Number of accidents in past 5 years")
                .with_data_type("integer"),
        )
        .add_output(
            AttributeInfo::new("premium")
                .with_description("Monthly premium amount in dollars")
                .with_data_type("number"),
        )
        .with_input_value("age".to_string(), InputValue::integer(25))
        .with_input_value("driving_record".to_string(), InputValue::integer(0));

    let builder = PromptBuilder::new();
    let prompt = builder.build(&context);

    assert!(prompt.contains("calculate-premium"));
    assert!(prompt.contains("auto-insurance"));
    assert!(prompt.contains("Driver's age"));
    assert!(prompt.contains("premium"));
}

#[test]
fn test_prompt_builder_custom_template() {
    let context = RuleEvaluationContext::new("test-rule")
        .add_input(AttributeInfo::new("x"))
        .add_input(AttributeInfo::new("y"))
        .with_input_value("x".to_string(), InputValue::integer(10))
        .with_input_value("y".to_string(), InputValue::integer(20));

    let builder = PromptBuilder::new().with_template("Calculate: x={{x}}, y={{y}}. Inputs: {{inputs_json}}");

    let prompt = builder.build(&context);

    assert!(prompt.contains("x=10"));
    assert!(prompt.contains("y=20"));
    assert!(prompt.contains("\"x\": 10"));
}

#[test]
fn test_prompt_token_optimization() {
    let context = RuleEvaluationContext::new("calculate-premium")
        .with_description("Calculate insurance premium")
        .add_input(AttributeInfo::new("age").with_description("Driver's age").with_data_type("integer"))
        .add_output(AttributeInfo::new("premium").with_description("Monthly premium").with_data_type("number"))
        .with_input_value("age".to_string(), InputValue::integer(25));

    let prompt = PromptBuilder::new().build(&context);

    assert!(prompt.contains("## Task"));
    assert!(prompt.contains("Evaluate the inputs"));
    assert!(prompt.contains("## Output"));
    assert!(prompt.contains("JSON with keys: premium"));

    assert!(!prompt.contains("edge cases and boundary conditions"));
    assert!(!prompt.contains("Return ONLY the JSON object, no additional text"));
    assert!(!prompt.contains("Consider:"));

    assert!(prompt.len() < 700, "Prompt too long: {} chars", prompt.len());
}

#[test]
fn test_render_prompt_simple() {
    let inputs = vec![
        ("name".to_string(), InputValue::string("Alice")),
        ("score".to_string(), InputValue::integer(95)),
    ];
    let rendered = render_prompt("Hello {{name}}, your score is {{score}}", &inputs);
    assert_eq!(rendered, "Hello Alice, your score is 95");
}

#[test]
fn test_render_prompt_with_json() {
    let inputs = vec![("x".to_string(), InputValue::integer(1))];
    let rendered = render_prompt("Inputs: {{__inputs_json__}}", &inputs);
    assert!(rendered.contains("\"x\": 1"));
}

#[test]
fn test_render_prompt_with_outputs() {
    let inputs: Vec<(String, InputValue)> = Vec::new();
    let outputs = vec!["result".to_string(), "confidence".to_string()];
    let rendered = render_prompt_with_outputs("Return: {{__output_names__}}", &inputs, &outputs);
    assert_eq!(rendered, "Return: result, confidence");
}

#[test]
fn llm_default_prompt_exact_text() {
    let context = RuleEvaluationContext::new("r")
        .with_product("p")
        .add_input(AttributeInfo::new("a").with_data_type("number").with_example("1").with_example("2"))
        .add_output(AttributeInfo::new("o"))
        .with_input_value("a".to_string(), InputValue::string("hi"))
        .with_additional_context("ctx");
    let prompt = PromptBuilder::new().with_examples(true).build(&context);
    assert_eq!(
        prompt,
        "# Rule Evaluation: r\nProduct: p\n\n## Input Values\n\n### a\n- **Type**: number\n- **Current Value**: `\"hi\"`\n- **Examples**: 1, 2\n\n\n\n## Expected Outputs\n\nYou must provide values for the following outputs:\n\n### o\n\n\n\n## Task\n\nEvaluate the inputs above and determine the output values.\n\n**Context**: ctx\n\n\n## Output\n\nJSON with keys: o"
    );
}

#[test]
fn llm_default_prompt_without_attributes() {
    let context = RuleEvaluationContext::new("r");
    let prompt = PromptBuilder::new().with_output_format(OutputFormatInstructions::Boolean).build(&context);
    assert!(prompt.contains("(No inputs defined)"));
    assert!(prompt.contains("(No specific output attributes defined)"));
    assert!(prompt.ends_with("## Output\n\n`true` or `false`"));
    let json = PromptBuilder::new().build(&context);
    assert!(json.ends_with("JSON with keys: result"));
}

#[test]
fn llm_template_placeholders() {
    let context = RuleEvaluationContext::new("rule")
        .with_description("desc")
        .add_input(AttributeInfo::new("x").with_description("the x").with_data_type("int"))
        .add_output(AttributeInfo::new("y"))
        .add_output(AttributeInfo::new("z"))
        .with_input_value("x".to_string(), InputValue::boolean(true))
        .with_input_value("x".to_string(), InputValue::null());
    let prompt = PromptBuilder::new()
        .with_template("{{rule_name}}|{{rule_description}}|{{rule_type}}|{{inputs_description}}|{{output_names}}|{{x}}|{{additional_context}}")
        .build(&context);
    assert_eq!(prompt, "rule|desc||- **x**: the x (int)\n|y, z|null|");
}

#[test]
fn llm_string_value_fills_without_quotes() {
    let v = InputValue::string("a\"b");
    assert_eq!(v.json(), "\"a\\\"b\"");
    assert_eq!(v.text(), Some("a\"b"));
    let inputs = vec![("k".to_string(), v)];
    assert_eq!(render_prompt("[{{k}}] {{k}}", &inputs), "[a\"b] a\"b");
}

#[test]
fn llm_detector_constraints_and_types() {
    let context = RuleEvaluationContext::new("r")
        .add_output(AttributeInfo::new("o").with_constraints("Between 0 and 1").with_data_type("Number"));
    let full = InstructionDetector::new("Constraint: between 0 and 1; type: number");
    assert!(full.has_complete_constraint_instructions(&context));
    assert!(full.has_complete_datatype_instructions(&context));
    let partial = InstructionDetector::new("validation is up to you; the data type is free");
    assert!(!partial.has_complete_constraint_instructions(&context));
    assert!(!partial.has_complete_datatype_instructions(&context));
    let silent = InstructionDetector::new("between 0 and 1, number");
    assert!(!silent.has_complete_constraint_instructions(&context));
    assert!(!silent.has_complete_datatype_instructions(&context));
}

use rule_engine::json::Json;
use rule_engine::llm::response::{array_outputs, boolean_outputs, json_outputs, text_outputs};

fn names(ns: &[&str]) -> Vec<String> {
    ns.iter().map(|s| s.to_string()).collect()
}

#[test]
fn llm_json_outputs_pick_named_members() {
    let answer = Json::Object(vec![
        ("risk".to_string(), Json::Str("low".to_string())),
        ("extra".to_string(), Json::Int(1)),
        ("score".to_string(), Json::Int(7)),
    ]);
    let out = json_outputs(&answer, &names(&["score", "risk", "missing", "score"]));
    assert_eq!(
        out,
        vec![("score".to_string(), Json::Int(7)), ("risk".to_string(), Json::Str("low".to_string()))]
    );
    let single = json_outputs(&Json::Int(42), &names(&["sum", "other"]));
    assert_eq!(single, vec![("sum".to_string(), Json::Int(42))]);
    assert!(json_outputs(&Json::Int(42), &names(&[])).is_empty());
}

#[test]
fn llm_other_formats_fill_the_first_output() {
    let arr = Json::Array(vec![Json::Int(1), Json::Int(2)]);
    assert_eq!(array_outputs(&arr, &names(&["xs"])), vec![("xs".to_string(), Json::Array(vec![Json::Int(1), Json::Int(2)]))]);
    assert!(array_outputs(&Json::Int(1), &names(&["xs"])).is_empty());
    assert_eq!(text_outputs("  hello \n", &names(&["t"])), vec![("t".to_string(), Json::Str("hello".to_string()))]);
    assert_eq!(boolean_outputs(true, &names(&["b", "c"])), vec![("b".to_string(), Json::Bool(true))]);
}

use rule_engine::llm::executor::{
    build_eval_context, build_prompt, choose_system_prompt, failure_stopping_run, gather_inputs, is_error_retryable,
    timeout_message, EvaluationError, LlmRuleResult, RetryLoop,
};

#[test]
fn llm_retryable_errors() {
    assert!(is_error_retryable(&EvaluationError::Internal("Network unreachable".to_string())));
    assert!(is_error_retryable(&EvaluationError::Internal("HTTP 503 Service Unavailable".to_string())));
    assert!(is_error_retryable(&EvaluationError::Internal("Rate Limit exceeded".to_string())));
    assert!(!is_error_retryable(&EvaluationError::Internal("invalid api key".to_string())));
    assert!(!is_error_retryable(&EvaluationError::Other("network".to_string())));
}

#[test]
fn llm_retry_loop_budget() {
    let mut attempts = RetryLoop::new(3, 1000);
    assert_eq!(attempts.attempt(), 0);
    attempts.record_failure(timeout_message(250));
    assert_eq!(attempts.last_error(), Some("Timeout after 250ms"));
    assert!(attempts.begin_retry(400));
    assert_eq!(attempts.retry_count(), 1);
    assert!(attempts.begin_retry(600));
    assert_eq!(attempts.total_backoff_ms(), 1000);
    assert!(!attempts.begin_retry(1));
    assert_eq!(attempts.retry_count(), 2);
    let mut few = RetryLoop::new(1, 10_000);
    assert!(few.begin_retry(0));
    assert!(!few.begin_retry(0));
    assert_eq!(few.retry_count(), 1);

    let failed = LlmRuleResult::failed("r", None, 7, &attempts);
    assert!(!failed.success);
    assert_eq!(failed.error, Some("Timeout after 250ms".to_string()));
    assert_eq!(failed.retry_count, 2);
    let ok = LlmRuleResult::succeeded("r", vec![("o".to_string(), Json::Int(1))], 5, &few);
    assert!(ok.success);
    assert_eq!(ok.retry_count, 1);
}

#[test]
fn llm_levels_stop_on_failure() {
    let attempts = RetryLoop::new(0, 0);
    let results = vec![
        LlmRuleResult::succeeded("a", Vec::new(), 1, &attempts),
        LlmRuleResult::failed("b", Some("bad".to_string()), 1, &attempts),
        LlmRuleResult::failed("c", Some("worse".to_string()), 1, &attempts),
    ];
    assert_eq!(failure_stopping_run(&results, false), Some("b".to_string()));
    assert_eq!(failure_stopping_run(&results, true), None);
    let all_ok = vec![LlmRuleResult::succeeded("a", Vec::new(), 1, &attempts)];
    assert_eq!(failure_stopping_run(&all_ok, false), None);
}

#[test]
fn llm_rule_context_prompt_and_inputs() {
    let metadata = RuleMetadata {
        name: "discount".to_string(),
        description: Some("d".to_string()),
        rule_type: None,
        product_name: Some("shop".to_string()),
        inputs: vec![AttributeInfo::new("tier"), AttributeInfo::new("amount")],
        outputs: vec![AttributeInfo::new("pct")],
        prompt_template: Some("{{rule_name}}: {{tier}} / {{amount}} -> {{output_names}}".to_string()),
        system_prompt: None,
    };
    let known = vec![
        ("amount".to_string(), InputValue::integer(150)),
        ("other".to_string(), InputValue::boolean(false)),
        ("tier".to_string(), InputValue::string("gold")),
    ];
    let inputs = gather_inputs(&metadata, &known);
    assert_eq!(inputs.len(), 2);
    assert_eq!(inputs[0].0, "tier");
    assert_eq!(inputs[1].1.json(), "150");
    let context = build_eval_context(&metadata, &inputs);
    assert_eq!(context.rule_name, "discount");
    assert_eq!(context.product_name, Some("shop".to_string()));
    assert_eq!(build_prompt(&metadata, &context), "discount: gold / 150 -> pct");
    assert_eq!(choose_system_prompt(&None, &Some("cfg".to_string())), "cfg");
    assert_eq!(choose_system_prompt(&Some("mine".to_string()), &Some("cfg".to_string())), "mine");
    assert!(choose_system_prompt(&None, &None).starts_with("You are a rule evaluation engine."));
}

use rule_engine::llm::response::try_embedded_json;

#[test]
fn llm_try_embedded_json_refuses_braces_out_of_order() {
    assert_eq!(try_embedded_json("say {\"a\": 1} ok"), Some(Some("{\"a\": 1}".to_string())));
    assert_eq!(try_embedded_json("} then {"), None);
    assert_eq!(try_embedded_json("}{"), Some(Some(String::new())));
    assert_eq!(try_embedded_json("no braces"), Some(None));
}

#[test]
fn llm_string_value_escapes_control_characters() {
    let v = InputValue::string("a\nb\u{1}\t\\");
    assert_eq!(v.json(), "\"a\\nb\\u0001\\t\\\\\"");
}
