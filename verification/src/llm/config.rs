//! LLM Evaluator Configuration: the output formats a model can be asked for
//! and the defaults of an evaluator's settings.

use vstd::prelude::*;
use crate::engine::dag::{join, push_joined, strings_view};
use crate::llm::prompt::{
    fill_placeholders, fill_values, members_of, pretty_json_object, pretty_object_text, replace_present,
    value_members, values_view, InputValue, SpecInputValue,
};
use crate::text::{contains_str, replace_str, str_chars, string_from_chars};

verus! {

/// Output format expected from the LLM
#[derive(Debug, Clone, Copy, PartialEq, Eq, Structural)]
pub enum OutputFormat {
    /// JSON object with named outputs
    Json,
    /// Plain text response
    Text,
    /// Boolean true/false
    Boolean,
    /// Numeric value
    Number,
    /// Array of values
    Array,
}

impl Default for OutputFormat {
    fn default() -> (f: Self)
        ensures
            f == OutputFormat::Json,
    {
        OutputFormat::Json
    }
}

/// The default limit on the tokens of an answer.
pub fn default_max_tokens() -> (n: u32)
    ensures
        n == 1024,
{
    1024
}

/// The default provider: a local Ollama server.
pub fn default_provider() -> (p: String)
    ensures
        p@ == "ollama"@,
{
    "ollama".to_owned()
}

/// A prompt template filled with the inputs: all of them as JSON for
/// `{{__inputs_json__}}`, then each value for its own placeholder.
pub open spec fn rendered_prompt(template: Seq<char>, inputs: Seq<(Seq<char>, SpecInputValue)>) -> Seq<char> {
    let r = replace_present(template, "{{__inputs_json__}}"@, pretty_json_object(value_members(inputs)));
    fill_values(r, inputs, inputs.len() as int)
}

/// Render the prompt template with the given inputs.
pub fn render_prompt(template: &str, inputs: &Vec<(String, InputValue)>) -> (r: String)
    ensures
        r@ == rendered_prompt(template@, values_view(inputs@)),
{
    let t = str_chars(template);
    let r = if contains_str(t.as_slice(), "{{__inputs_json__}}") {
        proof {
            reveal_strlit("{{__inputs_json__}}");
        }
        let members = members_of(inputs);
        let json = pretty_object_text(&members);
        let jc = str_chars(json.as_str());
        replace_str(t.as_slice(), "{{__inputs_json__}}", jc.as_slice())
    } else {
        t
    };
    let filled = fill_placeholders(r, inputs);
    string_from_chars(filled.as_slice())
}

/// A rendered prompt with `{{__output_names__}}` replaced by the output
/// names.
pub open spec fn rendered_prompt_with_outputs(
    template: Seq<char>,
    inputs: Seq<(Seq<char>, SpecInputValue)>,
    output_names: Seq<Seq<char>>,
) -> Seq<char> {
    replace_present(rendered_prompt(template, inputs), "{{__output_names__}}"@, join(output_names, ", "@))
}

/// Render the prompt with output names included
pub fn render_prompt_with_outputs(template: &str, inputs: &Vec<(String, InputValue)>, output_names: &Vec<String>) -> (r:
    String)
    ensures
        r@ == rendered_prompt_with_outputs(template@, values_view(inputs@), strings_view(output_names@)),
{
    let prompt = render_prompt(template, inputs);
    let p = str_chars(prompt.as_str());
    if contains_str(p.as_slice(), "{{__output_names__}}") {
        proof {
            reveal_strlit("{{__output_names__}}");
        }
        let mut names: Vec<char> = Vec::new();
        push_joined(&mut names, output_names, ", ");
        assert(names@ =~= join(strings_view(output_names@), ", "@));
        let r = replace_str(p.as_slice(), "{{__output_names__}}", names.as_slice());
        string_from_chars(r.as_slice())
    } else {
        prompt
    }
}

} // verus!
