//! Prompt settings for LLM rule evaluation: attribute metadata, the prompt
//! builder's options, and the detection of instructions a custom template
//! already gives.

use vstd::prelude::*;
use crate::engine::dag::{join, push_joined, strings_view};
use crate::farmscript::token::{decimal_int, int_to_chars};
use crate::text::{
    contains_chars, contains_seq, contains_str, push_chars, push_str, replace_all, replace_chars, replace_str, str_chars,
    str_to_lowercase, string_from_chars, unicode_lowercase,
};

verus! {

/// Metadata about an attribute for prompt context
#[derive(Debug, Clone)]
pub struct AttributeInfo {
    /// Attribute name/path
    pub name: String,
    /// Human-readable description
    pub description: Option<String>,
    /// Data type (e.g., "string", "number", "boolean")
    pub data_type: Option<String>,
    /// Example values
    pub examples: Vec<String>,
    /// Constraints or validation rules
    pub constraints: Option<String>,
}

pub open spec fn opt_view(o: Option<String>) -> Option<Seq<char>> {
    match o {
        Some(s) => Some(s@),
        None => None,
    }
}

/// Model of an [`AttributeInfo`].
#[verifier::ext_equal]
pub struct SpecAttributeInfo {
    pub name: Seq<char>,
    pub description: Option<Seq<char>>,
    pub data_type: Option<Seq<char>>,
    pub examples: Seq<Seq<char>>,
    pub constraints: Option<Seq<char>>,
}

impl View for AttributeInfo {
    type V = SpecAttributeInfo;

    open spec fn view(&self) -> SpecAttributeInfo {
        SpecAttributeInfo {
            name: self.name@,
            description: opt_view(self.description),
            data_type: opt_view(self.data_type),
            examples: self.examples@.map_values(|s: String| s@),
            constraints: opt_view(self.constraints),
        }
    }
}

impl AttributeInfo {
    /// An attribute with only a name.
    pub fn new(name: &str) -> (a: Self)
        ensures
            a@ == (SpecAttributeInfo {
                name: name@,
                description: None,
                data_type: None,
                examples: Seq::empty(),
                constraints: None,
            }),
    {
        let a = AttributeInfo {
            name: name.to_owned(),
            description: None,
            data_type: None,
            examples: Vec::new(),
            constraints: None,
        };
        assert(a@ =~~= (SpecAttributeInfo {
            name: name@,
            description: None,
            data_type: None,
            examples: Seq::empty(),
            constraints: None,
        }));
        a
    }

    pub fn with_description(self, desc: &str) -> (a: Self)
        ensures
            a@ == (SpecAttributeInfo { description: Some(desc@), ..self@ }),
    {
        AttributeInfo { description: Some(desc.to_owned()), ..self }
    }

    pub fn with_data_type(self, dt: &str) -> (a: Self)
        ensures
            a@ == (SpecAttributeInfo { data_type: Some(dt@), ..self@ }),
    {
        AttributeInfo { data_type: Some(dt.to_owned()), ..self }
    }

    pub fn with_example(self, example: &str) -> (a: Self)
        ensures
            a@ == (SpecAttributeInfo { examples: self@.examples.push(example@), ..self@ }),
    {
        let mut s = self;
        let ghost before = s@;
        s.examples.push(example.to_owned());
        assert(s@.examples =~= before.examples.push(example@));
        s
    }

    pub fn with_constraints(self, constraints: &str) -> (a: Self)
        ensures
            a@ == (SpecAttributeInfo { constraints: Some(constraints@), ..self@ }),
    {
        AttributeInfo { constraints: Some(constraints.to_owned()), ..self }
    }
}

/// How the answer format is described to the model
#[derive(Debug, Clone, Copy, PartialEq, Eq, Structural)]
pub enum OutputFormatInstructions {
    Json,
    SingleValue,
    Boolean,
    Structured,
}

impl Default for OutputFormatInstructions {
    fn default() -> (f: Self)
        ensures
            f == OutputFormatInstructions::Json,
    {
        OutputFormatInstructions::Json
    }
}

/// Builds prompts for LLM evaluation with rich context
#[derive(Debug, Clone)]
pub struct PromptBuilder {
    /// Custom prompt template (if provided)
    pub custom_template: Option<String>,
    /// Whether to include examples in the prompt
    pub include_examples: bool,
    /// Output format instructions
    pub output_format: OutputFormatInstructions,
}

impl PromptBuilder {
    /// A builder with the default prompt, no examples and JSON output.
    pub fn new() -> (b: Self)
        ensures
            b.custom_template is None,
            !b.include_examples,
            b.output_format == OutputFormatInstructions::Json,
    {
        PromptBuilder { custom_template: None, include_examples: false, output_format: OutputFormatInstructions::Json }
    }

    /// Use a custom prompt template
    pub fn with_template(self, template: &str) -> (b: Self)
        ensures
            opt_view(b.custom_template) == Some(template@),
            b.include_examples == self.include_examples,
            b.output_format == self.output_format,
    {
        PromptBuilder { custom_template: Some(template.to_owned()), ..self }
    }

    /// Include examples in the prompt
    pub fn with_examples(self, enabled: bool) -> (b: Self)
        ensures
            opt_view(b.custom_template) == opt_view(self.custom_template),
            b.include_examples == enabled,
            b.output_format == self.output_format,
    {
        PromptBuilder { include_examples: enabled, ..self }
    }

    /// Set output format instructions
    pub fn with_output_format(self, format: OutputFormatInstructions) -> (b: Self)
        ensures
            opt_view(b.custom_template) == opt_view(self.custom_template),
            b.include_examples == self.include_examples,
            b.output_format == format,
    {
        PromptBuilder { output_format: format, ..self }
    }
}

impl Default for PromptBuilder {
    fn default() -> (b: Self)
        ensures
            b.custom_template is None,
            !b.include_examples,
            b.output_format == OutputFormatInstructions::Json,
    {
        PromptBuilder::new()
    }
}

/// Whether a (lower-cased) template asks for JSON and shows its structure.
pub open spec fn complete_json_format_instruction(lower: Seq<char>) -> bool {
    contains_seq(lower, "json"@) && (contains_seq(lower, "```json"@) || (contains_seq(lower, "{"@)
        && contains_seq(lower, "}"@)) || contains_seq(lower, "json object"@) || contains_seq(
        lower,
        "json format"@,
    ))
}

/// The phrases that restrict an answer to its output alone.
pub open spec fn output_only_phrases() -> Seq<Seq<char>> {
    seq![
        "return only"@,
        "respond only"@,
        "output only"@,
        "return just"@,
        "respond with just"@,
        "only return"@,
        "only respond"@,
        "no explanation"@,
        "no additional text"@,
        "nothing else"@,
    ]
}

/// Whether a (lower-cased) template restricts the answer to its output.
pub open spec fn output_only_instruction(lower: Seq<char>) -> bool {
    exists|i: int| 0 <= i < output_only_phrases().len() && contains_seq(lower, #[trigger] output_only_phrases()[i])
}

/// Detects if a template already contains specific instructions.
/// Only returns true for certain matches - a conservative approach.
#[derive(Debug)]
pub struct InstructionDetector {
    /// The template text, lower-cased for matching
    template_lower: String,
}

impl InstructionDetector {
    pub closed spec fn lower(&self) -> Seq<char> {
        self.template_lower@
    }

    /// A detector for `template`.
    pub fn new(template: &str) -> (d: Self)
        ensures
            d.lower() == unicode_lowercase(template@),
    {
        InstructionDetector { template_lower: str_to_lowercase(template) }
    }

    /// Whether the template explicitly specifies JSON output with its
    /// structure: it mentions JSON and a code block, braces, "json object" or
    /// "json format".
    pub fn has_complete_json_format_instruction(&self) -> (r: bool)
        ensures
            r == complete_json_format_instruction(self.lower()),
    {
        let t = str_chars(self.template_lower.as_str());
        let l = t.as_slice();
        let has_json = contains_str(l, "json");
        let has_structure = contains_str(l, "```json") || (contains_str(l, "{") && contains_str(l, "}"))
            || contains_str(l, "json object") || contains_str(l, "json format");
        has_json && has_structure
    }

    /// Whether the template explicitly restricts the answer to the output,
    /// e.g. "return only the json", "respond with just the value".
    pub fn has_output_only_instruction(&self) -> (r: bool)
        ensures
            r == output_only_instruction(self.lower()),
    {
        let t = str_chars(self.template_lower.as_str());
        let l = t.as_slice();
        let patterns: Vec<&str> = vec![
            "return only",
            "respond only",
            "output only",
            "return just",
            "respond with just",
            "only return",
            "only respond",
            "no explanation",
            "no additional text",
            "nothing else",
        ];
        assert(patterns@.map_values(|p: &str| p@) =~= output_only_phrases());
        let mut i: usize = 0;
        while i < patterns.len()
            invariant
                0 <= i <= patterns@.len(),
                patterns@.map_values(|p: &str| p@) == output_only_phrases(),
                l@ == self.lower(),
                forall|k: int| 0 <= k < i ==> !contains_seq(l@, #[trigger] output_only_phrases()[k]),
            decreases patterns@.len() - i,
        {
            assert(output_only_phrases()[i as int] == patterns@[i as int]@);
            if contains_str(l, patterns[i]) {
                return true;
            }
            i = i + 1;
        }
        false
    }
}

// ---------------------------------------------------------------------------
// Input values and the evaluation context
// ---------------------------------------------------------------------------

/// A lower-case hexadecimal digit.
pub open spec fn hex_digit(d: int) -> char {
    if d < 10 {
        (48 + d) as char
    } else {
        (87 + d) as char
    }
}

/// How `serde_json` writes one character inside a string: `"` and `\`
/// escaped, the control characters backspace, form feed, newline, carriage
/// return and tab by their letter, the other control characters as
/// `\u00XX` (lower-case hex), every other character as it is.
pub open spec fn json_char_text(c: char) -> Seq<char> {
    if c == '"' {
        seq!['\\', '"']
    } else if c == '\\' {
        seq!['\\', '\\']
    } else if c == '\u{8}' {
        seq!['\\', 'b']
    } else if c == '\u{c}' {
        seq!['\\', 'f']
    } else if c == '\n' {
        seq!['\\', 'n']
    } else if c == '\r' {
        seq!['\\', 'r']
    } else if c == '\t' {
        seq!['\\', 't']
    } else if (c as int) < 0x20 {
        seq!['\\', 'u', '0', '0', hex_digit((c as int) / 16), hex_digit((c as int) % 16)]
    } else {
        seq![c]
    }
}

/// The characters of a string as `serde_json` writes them, escapes made.
pub open spec fn json_escaped(s: Seq<char>) -> Seq<char>
    decreases s.len(),
{
    if s.len() == 0 {
        Seq::empty()
    } else {
        json_escaped(s.drop_last()) + json_char_text(s.last())
    }
}

/// The JSON text of a string: the string quoted, with the escapes of
/// `serde_json`.
pub open spec fn json_string_text(s: Seq<char>) -> Seq<char> {
    seq!['"'] + json_escaped(s) + seq!['"']
}

/// `serde_json::to_string` on a string slice: the JSON text of the string
/// (see [`json_string_text`]); serialising a `str` into a `String` cannot
/// fail.
#[verifier::external_body]
fn quote_json_string(s: &str) -> (r: String)
    ensures
        r@ == json_string_text(s@),
{
    serde_json::to_string(s).unwrap_or_default()
}

/// Model of an [`InputValue`]: its JSON text and, for a string, the string.
pub struct SpecInputValue {
    pub json: Seq<char>,
    pub text: Option<Seq<char>>,
}

/// The value of a rule input, as a prompt shows it: its JSON text, and for
/// a string value the string itself (a placeholder shows a string without
/// quotes).
#[derive(Debug, Clone)]
pub struct InputValue {
    json: String,
    text: Option<String>,
}

impl View for InputValue {
    type V = SpecInputValue;

    closed spec fn view(&self) -> SpecInputValue {
        SpecInputValue { json: self.json@, text: opt_view(self.text) }
    }
}

impl InputValue {
    /// A string value.
    pub fn string(s: &str) -> (v: Self)
        ensures
            v@ == (SpecInputValue { json: json_string_text(s@), text: Some(s@) }),
    {
        InputValue { json: quote_json_string(s), text: Some(s.to_owned()) }
    }

    /// An integer value.
    pub fn integer(n: i64) -> (v: Self)
        ensures
            v@ == (SpecInputValue { json: decimal_int(n as int), text: None }),
    {
        let d = int_to_chars(n);
        InputValue { json: string_from_chars(d.as_slice()), text: None }
    }

    /// A boolean value.
    pub fn boolean(b: bool) -> (v: Self)
        ensures
            v@ == (SpecInputValue { json: if b { "true"@ } else { "false"@ }, text: None }),
    {
        InputValue { json: if b { "true".to_owned() } else { "false".to_owned() }, text: None }
    }

    /// The null value.
    pub fn null() -> (v: Self)
        ensures
            v@ == (SpecInputValue { json: "null"@, text: None }),
    {
        InputValue { json: "null".to_owned(), text: None }
    }

    /// Any other value (a number, an array, an object), by its JSON text.
    pub fn from_json_text(json: &str) -> (v: Self)
        ensures
            v@ == (SpecInputValue { json: json@, text: None }),
    {
        InputValue { json: json.to_owned(), text: None }
    }

    /// A copy of the value.
    pub fn duplicate(&self) -> (v: InputValue)
        ensures
            v@ == self@,
    {
        InputValue { json: self.json.clone(), text: self.text.clone() }
    }

    /// The JSON text of the value.
    pub fn json(&self) -> (r: &str)
        ensures
            r@ == self@.json,
    {
        self.json.as_str()
    }

    /// The string, for a string value.
    pub fn text(&self) -> (r: Option<&str>)
        ensures
            match r {
                Some(t) => self@.text == Some(t@),
                None => self@.text is None,
            },
    {
        match &self.text {
            Some(t) => Some(t.as_str()),
            None => None,
        }
    }
}

/// The index of the first entry named `name` at or after `k` (the length
/// when there is none).
pub open spec fn value_index(vals: Seq<(Seq<char>, SpecInputValue)>, name: Seq<char>, k: int) -> int
    decreases vals.len() - k,
{
    if k < 0 || k >= vals.len() {
        vals.len() as int
    } else if vals[k].0 == name {
        k
    } else {
        value_index(vals, name, k + 1)
    }
}

/// The value given for `name`, if any.
pub open spec fn value_of(vals: Seq<(Seq<char>, SpecInputValue)>, name: Seq<char>) -> Option<SpecInputValue> {
    let i = value_index(vals, name, 0);
    if 0 <= i < vals.len() {
        Some(vals[i].1)
    } else {
        None
    }
}

/// The values with `name` set to `v`: its entry replaced, or a new entry
/// at the end.
pub open spec fn set_value(vals: Seq<(Seq<char>, SpecInputValue)>, name: Seq<char>, v: SpecInputValue) -> Seq<
    (Seq<char>, SpecInputValue),
> {
    let i = value_index(vals, name, 0);
    if 0 <= i < vals.len() {
        vals.update(i, (name, v))
    } else {
        vals.push((name, v))
    }
}

pub proof fn lemma_value_index_bounds(vals: Seq<(Seq<char>, SpecInputValue)>, name: Seq<char>, k: int)
    requires
        0 <= k <= vals.len(),
    ensures
        k <= value_index(vals, name, k) <= vals.len(),
        value_index(vals, name, k) < vals.len() ==> vals[value_index(vals, name, k)].0 == name,
        forall|j: int| k <= j < value_index(vals, name, k) ==> vals[j].0 != name,
    decreases vals.len() - k,
{
    if k < vals.len() && vals[k].0 != name {
        lemma_value_index_bounds(vals, name, k + 1);
    }
}

pub open spec fn values_view(v: Seq<(String, InputValue)>) -> Seq<(Seq<char>, SpecInputValue)> {
    v.map_values(|e: (String, InputValue)| (e.0@, e.1@))
}

/// Model of a [`RuleEvaluationContext`].
pub struct SpecRuleContext {
    pub rule_name: Seq<char>,
    pub rule_description: Option<Seq<char>>,
    pub rule_type: Option<Seq<char>>,
    pub inputs: Seq<SpecAttributeInfo>,
    pub outputs: Seq<SpecAttributeInfo>,
    pub input_values: Seq<(Seq<char>, SpecInputValue)>,
    pub additional_context: Option<Seq<char>>,
    pub product_name: Option<Seq<char>>,
}

/// What a prompt is built from: the rule, its attributes and the values of
/// its inputs.
#[derive(Debug, Clone)]
pub struct RuleEvaluationContext {
    /// Rule name/identifier
    pub rule_name: String,
    /// Rule description
    pub rule_description: Option<String>,
    /// Rule type/category
    pub rule_type: Option<String>,
    /// Input attributes with their metadata
    pub inputs: Vec<AttributeInfo>,
    /// Output attributes with their metadata
    pub outputs: Vec<AttributeInfo>,
    /// The values of the inputs, by name
    pub input_values: Vec<(String, InputValue)>,
    /// Additional context or instructions
    pub additional_context: Option<String>,
    /// Product/domain name
    pub product_name: Option<String>,
}

pub open spec fn infos_view(v: Seq<AttributeInfo>) -> Seq<SpecAttributeInfo> {
    v.map_values(|a: AttributeInfo| a@)
}

impl View for RuleEvaluationContext {
    type V = SpecRuleContext;

    open spec fn view(&self) -> SpecRuleContext {
        SpecRuleContext {
            rule_name: self.rule_name@,
            rule_description: opt_view(self.rule_description),
            rule_type: opt_view(self.rule_type),
            inputs: infos_view(self.inputs@),
            outputs: infos_view(self.outputs@),
            input_values: values_view(self.input_values@),
            additional_context: opt_view(self.additional_context),
            product_name: opt_view(self.product_name),
        }
    }
}

impl RuleEvaluationContext {
    /// A context for the rule `rule_name`, with nothing else.
    pub fn new(rule_name: &str) -> (c: Self)
        ensures
            c@ == (SpecRuleContext {
                rule_name: rule_name@,
                rule_description: None,
                rule_type: None,
                inputs: Seq::empty(),
                outputs: Seq::empty(),
                input_values: Seq::empty(),
                additional_context: None,
                product_name: None,
            }),
    {
        let c = RuleEvaluationContext {
            rule_name: rule_name.to_owned(),
            rule_description: None,
            rule_type: None,
            inputs: Vec::new(),
            outputs: Vec::new(),
            input_values: Vec::new(),
            additional_context: None,
            product_name: None,
        };
        assert(c@.inputs =~= Seq::<SpecAttributeInfo>::empty());
        assert(c@.outputs =~= Seq::<SpecAttributeInfo>::empty());
        assert(c@.input_values =~= Seq::<(Seq<char>, SpecInputValue)>::empty());
        c
    }

    pub fn with_description(self, desc: &str) -> (c: Self)
        ensures
            c@ == (SpecRuleContext { rule_description: Some(desc@), ..self@ }),
    {
        RuleEvaluationContext { rule_description: Some(desc.to_owned()), ..self }
    }

    pub fn with_rule_type(self, rule_type: &str) -> (c: Self)
        ensures
            c@ == (SpecRuleContext { rule_type: Some(rule_type@), ..self@ }),
    {
        RuleEvaluationContext { rule_type: Some(rule_type.to_owned()), ..self }
    }

    pub fn with_product(self, product: &str) -> (c: Self)
        ensures
            c@ == (SpecRuleContext { product_name: Some(product@), ..self@ }),
    {
        RuleEvaluationContext { product_name: Some(product.to_owned()), ..self }
    }

    pub fn add_input(self, info: AttributeInfo) -> (c: Self)
        ensures
            c@ == (SpecRuleContext { inputs: self@.inputs.push(info@), ..self@ }),
    {
        let mut c = self;
        let ghost before = c@;
        c.inputs.push(info);
        assert(c@.inputs =~= before.inputs.push(info@));
        c
    }

    pub fn add_output(self, info: AttributeInfo) -> (c: Self)
        ensures
            c@ == (SpecRuleContext { outputs: self@.outputs.push(info@), ..self@ }),
    {
        let mut c = self;
        let ghost before = c@;
        c.outputs.push(info);
        assert(c@.outputs =~= before.outputs.push(info@));
        c
    }

    /// Sets the value of the input `name`, replacing the one it had.
    pub fn with_input_value(self, name: String, value: InputValue) -> (c: Self)
        ensures
            c@ == (SpecRuleContext { input_values: set_value(self@.input_values, name@, value@), ..self@ }),
    {
        let mut c = self;
        let ghost before = c@;
        let ghost vals = before.input_values;
        let mut k: usize = 0;
        while k < c.input_values.len()
            invariant
                0 <= k <= c.input_values@.len(),
                c@ == before,
                before == self@,
                vals == before.input_values,
                value_index(vals, name@, 0) == value_index(vals, name@, k as int),
            decreases c.input_values@.len() - k,
        {
            if c.input_values[k].0 == name {
                proof {
                    assert(vals[k as int].0 == name@);
                }
                let ghost nv = name@;
                c.input_values.set(k, (name, value));
                assert(c@.input_values =~= vals.update(k as int, (nv, value@)));
                assert(value_index(vals, nv, 0) == k);
                return c;
            }
            k = k + 1;
        }
        let ghost nv = name@;
        c.input_values.push((name, value));
        assert(c@.input_values =~= vals.push((nv, value@)));
        c
    }

    /// Sets the values of all inputs at once.
    pub fn with_input_values(self, values: Vec<(String, InputValue)>) -> (c: Self)
        ensures
            c@ == (SpecRuleContext { input_values: values_view(values@), ..self@ }),
    {
        RuleEvaluationContext { input_values: values, ..self }
    }

    pub fn with_additional_context(self, ctx: &str) -> (c: Self)
        ensures
            c@ == (SpecRuleContext { additional_context: Some(ctx@), ..self@ }),
    {
        RuleEvaluationContext { additional_context: Some(ctx.to_owned()), ..self }
    }

    /// The value given for the input `name`, if any.
    pub fn input_value(&self, name: &String) -> (r: Option<&InputValue>)
        ensures
            match r {
                Some(v) => value_of(self@.input_values, name@) == Some(v@),
                None => value_of(self@.input_values, name@) is None,
            },
    {
        let ghost vals = self@.input_values;
        let mut k: usize = 0;
        while k < self.input_values.len()
            invariant
                0 <= k <= self.input_values@.len(),
                vals == self@.input_values,
                value_index(vals, name@, 0) == value_index(vals, name@, k as int),
            decreases self.input_values@.len() - k,
        {
            if self.input_values[k].0 == *name {
                return Some(&self.input_values[k].1);
            }
            k = k + 1;
        }
        None
    }
}

// ---------------------------------------------------------------------------
// The text of a prompt
// ---------------------------------------------------------------------------

/// A line `label` + text, for a text that is present.
pub open spec fn opt_line(label: Seq<char>, o: Option<Seq<char>>) -> Seq<char> {
    match o {
        Some(x) => label + x + "\n"@,
        None => Seq::empty(),
    }
}

/// `label` + text, for a text that is present.
pub open spec fn opt_prefixed(label: Seq<char>, o: Option<Seq<char>>) -> Seq<char> {
    match o {
        Some(x) => label + x,
        None => Seq::empty(),
    }
}

/// The text, or nothing.
pub open spec fn or_empty(o: Option<Seq<char>>) -> Seq<char> {
    match o {
        Some(x) => x,
        None => Seq::empty(),
    }
}

/// The line listing the examples, when they are asked for and there are some.
pub open spec fn examples_line(label: Seq<char>, examples: Seq<Seq<char>>, with_examples: bool) -> Seq<char> {
    if with_examples && examples.len() > 0 {
        label + join(examples, ", "@) + "\n"@
    } else {
        Seq::empty()
    }
}

/// The line showing an input's current value, when it has one.
pub open spec fn value_line(v: Option<SpecInputValue>) -> Seq<char> {
    match v {
        Some(v) => "- **Current Value**: `"@ + v.json + "`\n"@,
        None => Seq::empty(),
    }
}

/// The block that describes one input.
pub open spec fn input_block(a: SpecAttributeInfo, v: Option<SpecInputValue>, with_examples: bool) -> Seq<char> {
    "### "@ + a.name + "\n"@ + opt_line("- **Description**: "@, a.description) + opt_line(
        "- **Type**: "@,
        a.data_type,
    ) + opt_line("- **Constraints**: "@, a.constraints) + value_line(v) + examples_line(
        "- **Examples**: "@,
        a.examples,
        with_examples,
    ) + "\n"@
}

/// The blocks of the first `k` inputs.
pub open spec fn input_blocks(ctx: SpecRuleContext, with_examples: bool, k: int) -> Seq<char>
    decreases k,
{
    if k <= 0 {
        Seq::empty()
    } else {
        input_blocks(ctx, with_examples, k - 1) + input_block(
            ctx.inputs[k - 1],
            value_of(ctx.input_values, ctx.inputs[k - 1].name),
            with_examples,
        )
    }
}

/// The section of a default prompt that shows the inputs.
pub open spec fn inputs_section(ctx: SpecRuleContext, with_examples: bool) -> Seq<char> {
    "## Input Values\n\n"@ + if ctx.inputs.len() == 0 {
        "(No inputs defined)\n"@
    } else {
        input_blocks(ctx, with_examples, ctx.inputs.len() as int)
    }
}

/// The block that describes one output.
pub open spec fn output_block(a: SpecAttributeInfo, with_examples: bool) -> Seq<char> {
    "### "@ + a.name + "\n"@ + opt_line("- **Description**: "@, a.description) + opt_line(
        "- **Expected Type**: "@,
        a.data_type,
    ) + opt_line("- **Constraints**: "@, a.constraints) + examples_line("- **Example Values**: "@, a.examples, with_examples)
        + "\n"@
}

/// The blocks of the first `k` outputs.
pub open spec fn output_blocks(outs: Seq<SpecAttributeInfo>, with_examples: bool, k: int) -> Seq<char>
    decreases k,
{
    if k <= 0 {
        Seq::empty()
    } else {
        output_blocks(outs, with_examples, k - 1) + output_block(outs[k - 1], with_examples)
    }
}

/// The section of a default prompt that lists the outputs.
pub open spec fn outputs_section(ctx: SpecRuleContext, with_examples: bool) -> Seq<char> {
    "## Expected Outputs\n\n"@ + "You must provide values for the following outputs:\n\n"@ + if ctx.outputs.len()
        == 0 {
        "(No specific output attributes defined)\n"@
    } else {
        output_blocks(ctx.outputs, with_examples, ctx.outputs.len() as int)
    }
}

/// The title of a default prompt, with the product and the rule type.
pub open spec fn header_text(ctx: SpecRuleContext) -> Seq<char> {
    "# Rule Evaluation: "@ + ctx.rule_name + opt_prefixed("\nProduct: "@, ctx.product_name) + opt_prefixed(
        "\nRule Type: "@,
        ctx.rule_type,
    )
}

/// The task of a default prompt, with the additional context.
pub open spec fn instructions_text(ctx: SpecRuleContext) -> Seq<char> {
    "## Task\n\n"@ + "Evaluate the inputs above and determine the output values.\n"@ + match ctx.additional_context {
        Some(a) => "\n**Context**: "@ + a + "\n"@,
        None => Seq::empty(),
    }
}

/// The names of the attributes.
pub open spec fn attr_names(attrs: Seq<SpecAttributeInfo>) -> Seq<Seq<char>> {
    attrs.map_values(|a: SpecAttributeInfo| a.name)
}

/// The format the answer is asked in.
pub open spec fn format_text(format: OutputFormatInstructions, ctx: SpecRuleContext) -> Seq<char> {
    match format {
        OutputFormatInstructions::Json => "## Output\n\nJSON with keys: "@ + if ctx.outputs.len() == 0 {
            "result"@
        } else {
            join(attr_names(ctx.outputs), ", "@)
        },
        OutputFormatInstructions::SingleValue => "## Output\n\nSingle value"@,
        OutputFormatInstructions::Boolean => "## Output\n\n`true` or `false`"@,
        OutputFormatInstructions::Structured => "## Output\n\n"@ + join(attr_names(ctx.outputs), ", "@),
    }
}

/// The sections of a default prompt.
pub open spec fn prompt_sections(with_examples: bool, format: OutputFormatInstructions, ctx: SpecRuleContext) -> Seq<
    Seq<char>,
> {
    seq![header_text(ctx)] + match ctx.rule_description {
        Some(d) => seq!["## Rule Description\n"@ + d],
        None => Seq::empty(),
    } + seq![
        inputs_section(ctx, with_examples),
        outputs_section(ctx, with_examples),
        instructions_text(ctx),
        format_text(format, ctx),
    ]
}

/// The prompt made without a template: its sections, a blank line apart.
pub open spec fn default_prompt(with_examples: bool, format: OutputFormatInstructions, ctx: SpecRuleContext) -> Seq<char> {
    join(prompt_sections(with_examples, format, ctx), "\n\n"@)
}

/// One line of an attribute list: its name, description and type.
pub open spec fn attr_description(a: SpecAttributeInfo) -> Seq<char> {
    "- **"@ + a.name + "**"@ + opt_prefixed(": "@, a.description) + match a.data_type {
        Some(t) => " ("@ + t + ")"@,
        None => Seq::empty(),
    } + "\n"@
}

/// The lines of the first `k` attributes.
pub open spec fn attr_descriptions(attrs: Seq<SpecAttributeInfo>, k: int) -> Seq<char>
    decreases k,
{
    if k <= 0 {
        Seq::empty()
    } else {
        attr_descriptions(attrs, k - 1) + attr_description(attrs[k - 1])
    }
}

/// The placeholder of a template that stands for `key`.
pub open spec fn placeholder(key: Seq<char>) -> Seq<char> {
    "{{"@ + key + "}}"@
}

/// How a value fills a placeholder: a string as it is, another value as
/// its JSON text.
pub open spec fn shown(v: SpecInputValue) -> Seq<char> {
    match v.text {
        Some(t) => t,
        None => v.json,
    }
}

/// `s` with the placeholders of the first `k` values filled, in order.
pub open spec fn fill_values(s: Seq<char>, vals: Seq<(Seq<char>, SpecInputValue)>, k: int) -> Seq<char>
    decreases k,
{
    if k <= 0 {
        s
    } else {
        replace_all(fill_values(s, vals, k - 1), placeholder(vals[k - 1].0), shown(vals[k - 1].1))
    }
}

/// The names and JSON texts of the first `k` inputs that have a value.
pub open spec fn defined_members(ctx: SpecRuleContext, k: int) -> Seq<(Seq<char>, Seq<char>)>
    decreases k,
{
    if k <= 0 {
        Seq::empty()
    } else {
        defined_members(ctx, k - 1) + match value_of(ctx.input_values, ctx.inputs[k - 1].name) {
            Some(v) => seq![(ctx.inputs[k - 1].name, v.json)],
            None => Seq::empty(),
        }
    }
}

/// The pretty JSON text `serde_json` gives for an object with these
/// members, each value given by its JSON text.
pub uninterp spec fn pretty_json_object(members: Seq<(Seq<char>, Seq<char>)>) -> Seq<char>;

pub open spec fn pairs_view(v: Seq<(String, String)>) -> Seq<(Seq<char>, Seq<char>)> {
    v.map_values(|m: (String, String)| (m.0@, m.1@))
}

/// `serde_json::to_string_pretty` on the object with these members, each
/// value parsed from its JSON text.  Its result is named; like the
/// serialisation it stands for, it gives the empty text when a value is
/// not JSON.
#[verifier::external_body]
pub(crate) fn pretty_object_text(members: &Vec<(String, String)>) -> (r: String)
    ensures
        r@ == pretty_json_object(pairs_view(members@)),
{
    let object: Result<serde_json::Map<String, serde_json::Value>, serde_json::Error> = members.iter().map(
        |(k, v)| serde_json::from_str(v).map(|j| (k.clone(), j)),
    ).collect();
    object.and_then(|m| serde_json::to_string_pretty(&m)).unwrap_or_default()
}

/// `s` with `pat` replaced, when it holds `pat`.
pub open spec fn replace_present(s: Seq<char>, pat: Seq<char>, rep: Seq<char>) -> Seq<char> {
    if contains_seq(s, pat) {
        replace_all(s, pat, rep)
    } else {
        s
    }
}

/// A template with its placeholders filled from the context: the rule's
/// fields, the inputs as JSON, the input and output lists, the output
/// names, each input value, and the additional context.
pub open spec fn rendered(template: Seq<char>, ctx: SpecRuleContext) -> Seq<char> {
    let r1 = replace_all(template, "{{rule_name}}"@, ctx.rule_name);
    let r2 = replace_all(r1, "{{rule_description}}"@, or_empty(ctx.rule_description));
    let r3 = replace_all(r2, "{{rule_type}}"@, or_empty(ctx.rule_type));
    let r4 = replace_all(r3, "{{product_name}}"@, or_empty(ctx.product_name));
    let r5 = replace_present(
        r4,
        "{{inputs_json}}"@,
        pretty_json_object(defined_members(ctx, ctx.inputs.len() as int)),
    );
    let r6 = replace_present(r5, "{{inputs_description}}"@, attr_descriptions(ctx.inputs, ctx.inputs.len() as int));
    let r7 = replace_present(r6, "{{outputs_description}}"@, attr_descriptions(ctx.outputs, ctx.outputs.len() as int));
    let r8 = replace_present(r7, "{{output_names}}"@, join(attr_names(ctx.outputs), ", "@));
    let r9 = fill_values(r8, ctx.input_values, ctx.input_values.len() as int);
    replace_all(r9, "{{additional_context}}"@, or_empty(ctx.additional_context))
}

/// The prompt a builder makes for a context: its template filled, or the
/// default prompt.
pub open spec fn built_prompt(
    template: Option<Seq<char>>,
    with_examples: bool,
    format: OutputFormatInstructions,
    ctx: SpecRuleContext,
) -> Seq<char> {
    match template {
        Some(t) => rendered(t, ctx),
        None => default_prompt(with_examples, format, ctx),
    }
}

/// Appends `label`, the text and a newline, for a text that is present.
fn push_opt_line(out: &mut Vec<char>, label: &str, o: &Option<String>)
    ensures
        final(out)@ == old(out)@ + opt_line(label@, opt_view(*o)),
{
    match o {
        Some(x) => {
            let ghost start = out@;
            push_str(out, label);
            push_str(out, x.as_str());
            push_str(out, "\n");
            assert(out@ =~= start + (label@ + x@ + "\n"@));
        },
        None => {
            assert(out@ =~= out@ + Seq::<char>::empty());
        },
    }
}

/// Appends `label` and the text, for a text that is present.
fn push_opt_prefixed(out: &mut Vec<char>, label: &str, o: &Option<String>)
    ensures
        final(out)@ == old(out)@ + opt_prefixed(label@, opt_view(*o)),
{
    match o {
        Some(x) => {
            let ghost start = out@;
            push_str(out, label);
            push_str(out, x.as_str());
            assert(out@ =~= start + (label@ + x@));
        },
        None => {
            assert(out@ =~= out@ + Seq::<char>::empty());
        },
    }
}

/// Appends the examples line, when examples are asked for and there are some.
fn push_examples_line(out: &mut Vec<char>, label: &str, examples: &Vec<String>, with_examples: bool)
    ensures
        final(out)@ == old(out)@ + examples_line(label@, strings_view(examples@), with_examples),
{
    if with_examples && examples.len() > 0 {
        let ghost start = out@;
        push_str(out, label);
        push_joined(out, examples, ", ");
        push_str(out, "\n");
        assert(out@ =~= start + (label@ + join(strings_view(examples@), ", "@) + "\n"@));
    } else {
        assert(out@ =~= out@ + Seq::<char>::empty());
    }
}

pub open spec fn opt_value_view(o: Option<&InputValue>) -> Option<SpecInputValue> {
    match o {
        Some(v) => Some(v@),
        None => None,
    }
}

/// The names of the attributes.
fn attribute_names(attrs: &Vec<AttributeInfo>) -> (r: Vec<String>)
    ensures
        strings_view(r@) == attr_names(infos_view(attrs@)),
{
    let mut r: Vec<String> = Vec::new();
    let mut k: usize = 0;
    while k < attrs.len()
        invariant
            0 <= k <= attrs@.len(),
            r@.len() == k,
            forall|j: int| 0 <= j < k ==> (#[trigger] r@[j])@ == attrs@[j]@.name,
        decreases attrs@.len() - k,
    {
        r.push(attrs[k].name.clone());
        k = k + 1;
    }
    assert(strings_view(r@) =~= attr_names(infos_view(attrs@)));
    r
}

/// Appends the list lines of the attributes.
fn push_attr_descriptions(out: &mut Vec<char>, attrs: &Vec<AttributeInfo>)
    ensures
        final(out)@ == old(out)@ + attr_descriptions(infos_view(attrs@), attrs@.len() as int),
{
    let ghost start = out@;
    let ghost av = infos_view(attrs@);
    let mut k: usize = 0;
    while k < attrs.len()
        invariant
            0 <= k <= attrs@.len(),
            av == infos_view(attrs@),
            out@ == start + attr_descriptions(av, k as int),
        decreases attrs@.len() - k,
    {
        let a = &attrs[k];
        let ghost before = out@;
        push_str(out, "- **");
        push_str(out, a.name.as_str());
        push_str(out, "**");
        push_opt_prefixed(out, ": ", &a.description);
        match &a.data_type {
            Some(t) => {
                push_str(out, " (");
                push_str(out, t.as_str());
                push_str(out, ")");
            },
            None => {},
        }
        push_str(out, "\n");
        assert(av[k as int] == a@);
        assert(out@ =~= before + attr_description(a@));
        k = k + 1;
        assert(out@ =~= start + attr_descriptions(av, k as int));
    }
}

impl PromptBuilder {
    fn build_header(&self, context: &RuleEvaluationContext) -> (r: Vec<char>)
        ensures
            r@ == header_text(context@),
    {
        let mut out: Vec<char> = Vec::new();
        push_str(&mut out, "# Rule Evaluation: ");
        push_str(&mut out, context.rule_name.as_str());
        push_opt_prefixed(&mut out, "\nProduct: ", &context.product_name);
        push_opt_prefixed(&mut out, "\nRule Type: ", &context.rule_type);
        assert(out@ =~= header_text(context@));
        out
    }

    #[verifier::spinoff_prover]
    fn push_input_block(&self, out: &mut Vec<char>, input: &AttributeInfo, value: Option<&InputValue>)
        ensures
            final(out)@ == old(out)@ + input_block(input@, opt_value_view(value), self.include_examples),
    {
        let ghost start = out@;
        let ghost a = input@;
        push_str(out, "### ");
        push_str(out, input.name.as_str());
        push_str(out, "\n");
        let ghost p1 = out@;
        assert(p1 =~= start + ("### "@ + a.name + "\n"@));
        push_opt_line(out, "- **Description**: ", &input.description);
        push_opt_line(out, "- **Type**: ", &input.data_type);
        push_opt_line(out, "- **Constraints**: ", &input.constraints);
        let ghost mid = out@;
        assert(mid =~= p1 + (opt_line("- **Description**: "@, a.description) + opt_line("- **Type**: "@, a.data_type)
            + opt_line("- **Constraints**: "@, a.constraints)));
        match value {
            Some(v) => {
                push_str(out, "- **Current Value**: `");
                push_str(out, v.json());
                push_str(out, "`\n");
            },
            None => {},
        }
        assert(out@ =~= mid + value_line(opt_value_view(value)));
        let ghost p3 = out@;
        push_examples_line(out, "- **Examples**: ", &input.examples, self.include_examples);
        push_str(out, "\n");
        assert(strings_view(input.examples@) =~= a.examples);
        assert(out@ =~= p3 + (examples_line("- **Examples**: "@, a.examples, self.include_examples) + "\n"@));
        assert(out@ =~= start + input_block(a, opt_value_view(value), self.include_examples));
    }

    fn build_inputs_section(&self, context: &RuleEvaluationContext) -> (r: Vec<char>)
        ensures
            r@ == inputs_section(context@, self.include_examples),
    {
        let mut out: Vec<char> = Vec::new();
        push_str(&mut out, "## Input Values\n\n");
        let ghost head = out@;
        if context.inputs.len() == 0 {
            push_str(&mut out, "(No inputs defined)\n");
        } else {
            let ghost ctx = context@;
            let mut k: usize = 0;
            while k < context.inputs.len()
                invariant
                    0 <= k <= context.inputs@.len(),
                    ctx == context@,
                    out@ == head + input_blocks(ctx, self.include_examples, k as int),
                decreases context.inputs@.len() - k,
            {
                let input = &context.inputs[k];
                let value = context.input_value(&input.name);
                self.push_input_block(&mut out, input, value);
                assert(ctx.inputs[k as int] == input@);
                k = k + 1;
                assert(out@ =~= head + input_blocks(ctx, self.include_examples, k as int));
            }
        }
        out
    }

    #[verifier::spinoff_prover]
    fn push_output_block(&self, out: &mut Vec<char>, output: &AttributeInfo)
        ensures
            final(out)@ == old(out)@ + output_block(output@, self.include_examples),
    {
        let ghost start = out@;
        push_str(out, "### ");
        push_str(out, output.name.as_str());
        push_str(out, "\n");
        push_opt_line(out, "- **Description**: ", &output.description);
        push_opt_line(out, "- **Expected Type**: ", &output.data_type);
        push_opt_line(out, "- **Constraints**: ", &output.constraints);
        push_examples_line(out, "- **Example Values**: ", &output.examples, self.include_examples);
        push_str(out, "\n");
        assert(strings_view(output.examples@) =~= output@.examples);
        assert(out@ =~= start + output_block(output@, self.include_examples));
    }

    fn build_outputs_section(&self, context: &RuleEvaluationContext) -> (r: Vec<char>)
        ensures
            r@ == outputs_section(context@, self.include_examples),
    {
        let mut out: Vec<char> = Vec::new();
        push_str(&mut out, "## Expected Outputs\n\n");
        push_str(&mut out, "You must provide values for the following outputs:\n\n");
        let ghost head = out@;
        if context.outputs.len() == 0 {
            push_str(&mut out, "(No specific output attributes defined)\n");
        } else {
            let ghost outs = context@.outputs;
            let mut k: usize = 0;
            while k < context.outputs.len()
                invariant
                    0 <= k <= context.outputs@.len(),
                    outs == context@.outputs,
                    out@ == head + output_blocks(outs, self.include_examples, k as int),
                decreases context.outputs@.len() - k,
            {
                let output = &context.outputs[k];
                self.push_output_block(&mut out, output);
                assert(outs[k as int] == output@);
                k = k + 1;
                assert(out@ =~= head + output_blocks(outs, self.include_examples, k as int));
            }
        }
        assert(out@ =~= outputs_section(context@, self.include_examples));
        out
    }

    fn build_instructions(&self, context: &RuleEvaluationContext) -> (r: Vec<char>)
        ensures
            r@ == instructions_text(context@),
    {
        let mut out: Vec<char> = Vec::new();
        push_str(&mut out, "## Task\n\n");
        push_str(&mut out, "Evaluate the inputs above and determine the output values.\n");
        let ghost head = out@;
        match &context.additional_context {
            Some(a) => {
                push_str(&mut out, "\n**Context**: ");
                push_str(&mut out, a.as_str());
                push_str(&mut out, "\n");
            },
            None => {},
        }
        assert(out@ =~= instructions_text(context@));
        out
    }

    fn build_output_format_instructions(&self, context: &RuleEvaluationContext) -> (r: Vec<char>)
        ensures
            r@ == format_text(self.output_format, context@),
    {
        let mut out: Vec<char> = Vec::new();
        match self.output_format {
            OutputFormatInstructions::Json => {
                push_str(&mut out, "## Output\n\nJSON with keys: ");
                if context.outputs.len() == 0 {
                    push_str(&mut out, "result");
                } else {
                    let names = attribute_names(&context.outputs);
                    push_joined(&mut out, &names, ", ");
                }
            },
            OutputFormatInstructions::SingleValue => {
                push_str(&mut out, "## Output\n\nSingle value");
            },
            OutputFormatInstructions::Boolean => {
                push_str(&mut out, "## Output\n\n`true` or `false`");
            },
            OutputFormatInstructions::Structured => {
                push_str(&mut out, "## Output\n\n");
                let names = attribute_names(&context.outputs);
                push_joined(&mut out, &names, ", ");
            },
        }
        assert(out@ =~= format_text(self.output_format, context@));
        out
    }

    fn format_inputs_description(&self, context: &RuleEvaluationContext) -> (r: Vec<char>)
        ensures
            r@ == attr_descriptions(context@.inputs, context@.inputs.len() as int),
    {
        let mut out: Vec<char> = Vec::new();
        push_attr_descriptions(&mut out, &context.inputs);
        assert(out@ =~= attr_descriptions(context@.inputs, context@.inputs.len() as int));
        out
    }

    fn format_outputs_description(&self, context: &RuleEvaluationContext) -> (r: Vec<char>)
        ensures
            r@ == attr_descriptions(context@.outputs, context@.outputs.len() as int),
    {
        let mut out: Vec<char> = Vec::new();
        push_attr_descriptions(&mut out, &context.outputs);
        assert(out@ =~= attr_descriptions(context@.outputs, context@.outputs.len() as int));
        out
    }
}

/// The characters of an optional text (none when it is absent).
fn opt_chars(o: &Option<String>) -> (r: Vec<char>)
    ensures
        r@ == or_empty(opt_view(*o)),
{
    match o {
        Some(x) => str_chars(x.as_str()),
        None => Vec::new(),
    }
}

/// The characters of the placeholder for `key`.
fn placeholder_chars(key: &String) -> (r: Vec<char>)
    ensures
        r@ == placeholder(key@),
        r@.len() > 0,
{
    let mut r: Vec<char> = Vec::new();
    r.push('{');
    r.push('{');
    push_str(&mut r, key.as_str());
    r.push('}');
    r.push('}');
    proof {
        reveal_strlit("{{");
        reveal_strlit("}}");
    }
    assert(r@ =~= placeholder(key@));
    r
}

/// The characters that fill a value's placeholder.
fn shown_chars(v: &InputValue) -> (r: Vec<char>)
    ensures
        r@ == shown(v@),
{
    match v.text() {
        Some(t) => str_chars(t),
        None => str_chars(v.json()),
    }
}

/// `s` with the placeholder of each value filled, in the order of the values.
pub fn fill_placeholders(s: Vec<char>, values: &Vec<(String, InputValue)>) -> (r: Vec<char>)
    ensures
        r@ == fill_values(s@, values_view(values@), values@.len() as int),
{
    let ghost vals = values_view(values@);
    let ghost base = s@;
    let mut r = s;
    let mut k: usize = 0;
    while k < values.len()
        invariant
            0 <= k <= values@.len(),
            vals == values_view(values@),
            r@ == fill_values(base, vals, k as int),
        decreases values@.len() - k,
    {
        let entry = &values[k];
        assert(vals[k as int] == (entry.0@, entry.1@));
        let pat = placeholder_chars(&entry.0);
        let rep = shown_chars(&entry.1);
        r = replace_chars(r.as_slice(), pat.as_slice(), rep.as_slice());
        k = k + 1;
    }
    r
}

/// The names and JSON texts of the values.
pub open spec fn value_members(vals: Seq<(Seq<char>, SpecInputValue)>) -> Seq<(Seq<char>, Seq<char>)> {
    vals.map_values(|e: (Seq<char>, SpecInputValue)| (e.0, e.1.json))
}

/// The names and JSON texts of the values.
pub fn members_of(values: &Vec<(String, InputValue)>) -> (r: Vec<(String, String)>)
    ensures
        pairs_view(r@) == value_members(values_view(values@)),
{
    let mut r: Vec<(String, String)> = Vec::new();
    let mut k: usize = 0;
    while k < values.len()
        invariant
            0 <= k <= values@.len(),
            r@.len() == k,
            forall|j: int| 0 <= j < k ==> (#[trigger] r@[j]).0@ == values@[j].0@ && r@[j].1@ == values@[j].1@.json,
        decreases values@.len() - k,
    {
        r.push((values[k].0.clone(), values[k].1.json().to_owned()));
        k = k + 1;
    }
    assert(pairs_view(r@) =~= value_members(values_view(values@)));
    r
}

impl PromptBuilder {
    /// The names and JSON texts of the inputs that have a value.
    fn defined_input_members(&self, context: &RuleEvaluationContext) -> (r: Vec<(String, String)>)
        ensures
            pairs_view(r@) == defined_members(context@, context@.inputs.len() as int),
    {
        let ghost ctx = context@;
        let mut r: Vec<(String, String)> = Vec::new();
        let mut k: usize = 0;
        while k < context.inputs.len()
            invariant
                0 <= k <= context.inputs@.len(),
                ctx == context@,
                pairs_view(r@) == defined_members(ctx, k as int),
            decreases context.inputs@.len() - k,
        {
            let input = &context.inputs[k];
            assert(ctx.inputs[k as int] == input@);
            let ghost before = pairs_view(r@);
            match context.input_value(&input.name) {
                Some(v) => {
                    r.push((input.name.clone(), v.json().to_owned()));
                    assert(pairs_view(r@) =~= before + seq![(input@.name, v@.json)]);
                },
                None => {
                    assert(pairs_view(r@) =~= before + Seq::<(Seq<char>, Seq<char>)>::empty());
                },
            }
            k = k + 1;
        }
        r
    }

    #[verifier::spinoff_prover]
    fn render_template(&self, template: &str, context: &RuleEvaluationContext) -> (r: Vec<char>)
        ensures
            r@ == rendered(template@, context@),
    {
        proof {
            reveal_strlit("{{rule_name}}");
            reveal_strlit("{{rule_description}}");
            reveal_strlit("{{rule_type}}");
            reveal_strlit("{{product_name}}");
            reveal_strlit("{{inputs_json}}");
            reveal_strlit("{{inputs_description}}");
            reveal_strlit("{{outputs_description}}");
            reveal_strlit("{{output_names}}");
            reveal_strlit("{{additional_context}}");
        }
        let ghost ctx = context@;
        let t = str_chars(template);
        let name = str_chars(context.rule_name.as_str());
        let r1 = replace_str(t.as_slice(), "{{rule_name}}", name.as_slice());
        let d = opt_chars(&context.rule_description);
        let r2 = replace_str(r1.as_slice(), "{{rule_description}}", d.as_slice());
        let rt = opt_chars(&context.rule_type);
        let r3 = replace_str(r2.as_slice(), "{{rule_type}}", rt.as_slice());
        let p = opt_chars(&context.product_name);
        let r4 = replace_str(r3.as_slice(), "{{product_name}}", p.as_slice());
        let r5 = if contains_str(r4.as_slice(), "{{inputs_json}}") {
            let members = self.defined_input_members(context);
            let json = pretty_object_text(&members);
            let jc = str_chars(json.as_str());
            replace_str(r4.as_slice(), "{{inputs_json}}", jc.as_slice())
        } else {
            r4
        };
        let r6 = if contains_str(r5.as_slice(), "{{inputs_description}}") {
            let desc = self.format_inputs_description(context);
            replace_str(r5.as_slice(), "{{inputs_description}}", desc.as_slice())
        } else {
            r5
        };
        let r7 = if contains_str(r6.as_slice(), "{{outputs_description}}") {
            let desc = self.format_outputs_description(context);
            replace_str(r6.as_slice(), "{{outputs_description}}", desc.as_slice())
        } else {
            r6
        };
        let r8 = if contains_str(r7.as_slice(), "{{output_names}}") {
            let names = attribute_names(&context.outputs);
            let mut joined: Vec<char> = Vec::new();
            push_joined(&mut joined, &names, ", ");
            assert(joined@ =~= join(attr_names(ctx.outputs), ", "@));
            replace_str(r7.as_slice(), "{{output_names}}", joined.as_slice())
        } else {
            r7
        };
        let r9 = fill_placeholders(r8, &context.input_values);
        let a = opt_chars(&context.additional_context);
        replace_str(r9.as_slice(), "{{additional_context}}", a.as_slice())
    }

    #[verifier::spinoff_prover]
    fn generate_default_prompt(&self, context: &RuleEvaluationContext) -> (r: Vec<char>)
        ensures
            r@ == default_prompt(self.include_examples, self.output_format, context@),
    {
        let ghost ctx = context@;
        let mut sections: Vec<String> = Vec::new();
        let header = self.build_header(context);
        sections.push(string_from_chars(header.as_slice()));
        let ghost first = strings_view(sections@);
        match &context.rule_description {
            Some(desc) => {
                let mut d: Vec<char> = Vec::new();
                push_str(&mut d, "## Rule Description\n");
                push_str(&mut d, desc.as_str());
                sections.push(string_from_chars(d.as_slice()));
            },
            None => {},
        }
        let ghost second = strings_view(sections@);
        let inputs = self.build_inputs_section(context);
        sections.push(string_from_chars(inputs.as_slice()));
        let outputs = self.build_outputs_section(context);
        sections.push(string_from_chars(outputs.as_slice()));
        let instructions = self.build_instructions(context);
        sections.push(string_from_chars(instructions.as_slice()));
        let format = self.build_output_format_instructions(context);
        sections.push(string_from_chars(format.as_slice()));
        assert(strings_view(sections@) =~= prompt_sections(self.include_examples, self.output_format, ctx));
        let mut out: Vec<char> = Vec::new();
        push_joined(&mut out, &sections, "\n\n");
        assert(out@ =~= default_prompt(self.include_examples, self.output_format, ctx));
        out
    }

    /// Build the prompt from context: the custom template with its
    /// placeholders filled, or the default prompt.
    pub fn build(&self, context: &RuleEvaluationContext) -> (r: String)
        ensures
            r@ == built_prompt(opt_view(self.custom_template), self.include_examples, self.output_format, context@),
    {
        match &self.custom_template {
            Some(template) => {
                let out = self.render_template(template.as_str(), context);
                string_from_chars(out.as_slice())
            },
            None => {
                let out = self.generate_default_prompt(context);
                string_from_chars(out.as_slice())
            },
        }
    }
}

/// Whether a (lower-cased) template speaks of constraints and names the
/// constraint of each output that has one.
pub open spec fn complete_constraint_instructions(lower: Seq<char>, outputs: Seq<SpecAttributeInfo>) -> bool {
    &&& (contains_seq(lower, "constraint"@) || contains_seq(lower, "validation"@) || contains_seq(
        lower,
        "valid values"@,
    ))
    &&& forall|i: int|
        0 <= i < outputs.len() ==> match (#[trigger] outputs[i]).constraints {
            Some(c) => contains_seq(lower, unicode_lowercase(c)),
            None => true,
        }
}

/// Whether a (lower-cased) template speaks of types and names the type of
/// each output that has one.
pub open spec fn complete_datatype_instructions(lower: Seq<char>, outputs: Seq<SpecAttributeInfo>) -> bool {
    &&& (contains_seq(lower, "type"@) || contains_seq(lower, "data type"@) || contains_seq(lower, "datatype"@))
    &&& forall|i: int|
        0 <= i < outputs.len() ==> match (#[trigger] outputs[i]).data_type {
            Some(t) => contains_seq(lower, unicode_lowercase(t)),
            None => true,
        }
}

/// Whether the lower-cased text `l` holds the lower-cased `text`.
fn holds_lowercased(l: &[char], text: &String) -> (r: bool)
    ensures
        r == contains_seq(l@, unicode_lowercase(text@)),
{
    let lowered = str_to_lowercase(text.as_str());
    let lc = str_chars(lowered.as_str());
    contains_chars(l, lc.as_slice())
}

impl InstructionDetector {
    /// Whether the template speaks of constraints and names the constraint
    /// of every output that has one (then the prompt need not list them).
    pub fn has_complete_constraint_instructions(&self, context: &RuleEvaluationContext) -> (r: bool)
        ensures
            r == complete_constraint_instructions(self.lower(), context@.outputs),
    {
        let t = str_chars(self.template_lower.as_str());
        let l = t.as_slice();
        let mentions = contains_str(l, "constraint") || contains_str(l, "validation") || contains_str(l, "valid values");
        if !mentions {
            return false;
        }
        let ghost outs = context@.outputs;
        let mut k: usize = 0;
        while k < context.outputs.len()
            invariant
                0 <= k <= context.outputs@.len(),
                outs == context@.outputs,
                l@ == self.lower(),
                forall|i: int|
                    0 <= i < k ==> match (#[trigger] outs[i]).constraints {
                        Some(c) => contains_seq(l@, unicode_lowercase(c)),
                        None => true,
                    },
            decreases context.outputs@.len() - k,
        {
            assert(outs[k as int] == context.outputs@[k as int]@);
            match &context.outputs[k].constraints {
                Some(c) => {
                    if !holds_lowercased(l, c) {
                        return false;
                    }
                },
                None => {},
            }
            k = k + 1;
        }
        true
    }

    /// Whether the template speaks of types and names the type of every
    /// output that has one (then the prompt need not list them).
    pub fn has_complete_datatype_instructions(&self, context: &RuleEvaluationContext) -> (r: bool)
        ensures
            r == complete_datatype_instructions(self.lower(), context@.outputs),
    {
        let t = str_chars(self.template_lower.as_str());
        let l = t.as_slice();
        let mentions = contains_str(l, "type") || contains_str(l, "data type") || contains_str(l, "datatype");
        if !mentions {
            return false;
        }
        let ghost outs = context@.outputs;
        let mut k: usize = 0;
        while k < context.outputs.len()
            invariant
                0 <= k <= context.outputs@.len(),
                outs == context@.outputs,
                l@ == self.lower(),
                forall|i: int|
                    0 <= i < k ==> match (#[trigger] outs[i]).data_type {
                        Some(t) => contains_seq(l@, unicode_lowercase(t)),
                        None => true,
                    },
            decreases context.outputs@.len() - k,
        {
            assert(outs[k as int] == context.outputs@[k as int]@);
            match &context.outputs[k].data_type {
                Some(dt) => {
                    if !holds_lowercased(l, dt) {
                        return false;
                    }
                },
                None => {},
            }
            k = k + 1;
        }
        true
    }
}

/// The system prompt for rule evaluation.
pub open spec fn system_prompt_text() -> Seq<char> {
    "You are a rule evaluation engine. Your task is to evaluate business rules based on provided inputs and return the computed outputs.\n\nGuidelines:\n1. Analyze all input values carefully\n2. Apply the rule logic as described\n3. Return outputs in the exact format requested\n4. Be precise with data types (numbers, strings, booleans)\n5. Handle edge cases appropriately\n6. If a value cannot be determined, return null\n\nYou must respond with ONLY the requested output format, no explanations or additional text."@
}

/// Generate a system prompt for rule evaluation
pub fn default_system_prompt() -> (s: String)
    ensures
        s@ == system_prompt_text(),
{
    "You are a rule evaluation engine. Your task is to evaluate business rules based on provided inputs and return the computed outputs.\n\nGuidelines:\n1. Analyze all input values carefully\n2. Apply the rule logic as described\n3. Return outputs in the exact format requested\n4. Be precise with data types (numbers, strings, booleans)\n5. Handle edge cases appropriately\n6. If a value cannot be determined, return null\n\nYou must respond with ONLY the requested output format, no explanations or additional text.".to_owned()
}

} // verus!
