//! Metadata of a rule for LLM evaluation.

use vstd::prelude::*;
use crate::llm::prompt::{opt_view, AttributeInfo, SpecAttributeInfo};

verus! {

/// Metadata for rule evaluation
#[derive(Debug, Clone)]
pub struct RuleMetadata {
    /// Rule name
    pub name: String,
    /// Rule description
    pub description: Option<String>,
    /// Rule type
    pub rule_type: Option<String>,
    /// Product name
    pub product_name: Option<String>,
    /// Input attribute metadata
    pub inputs: Vec<AttributeInfo>,
    /// Output attribute metadata
    pub outputs: Vec<AttributeInfo>,
    /// Custom prompt template (overrides default)
    pub prompt_template: Option<String>,
    /// Custom system prompt
    pub system_prompt: Option<String>,
}

pub open spec fn attrs_view(v: Seq<AttributeInfo>) -> Seq<SpecAttributeInfo> {
    v.map_values(|a: AttributeInfo| a@)
}

/// The description given for `name` in a list of (name, description) pairs:
/// the first one.
pub open spec fn description_for(descriptions: Seq<(String, String)>, name: Seq<char>, k: int) -> Option<
    Seq<char>,
>
    decreases descriptions.len() - k,
{
    if k < 0 || k >= descriptions.len() {
        None
    } else if descriptions[k].0@ == name {
        Some(descriptions[k].1@)
    } else {
        description_for(descriptions, name, k + 1)
    }
}

/// The attributes with the descriptions of the list applied: an attribute
/// named in the list takes its description; the others are unchanged.
pub open spec fn described(attrs: Seq<SpecAttributeInfo>, descriptions: Seq<(String, String)>) -> Seq<
    SpecAttributeInfo,
> {
    attrs.map_values(
        |a: SpecAttributeInfo|
            match description_for(descriptions, a.name, 0) {
                Some(d) => SpecAttributeInfo { description: Some(d), ..a },
                None => a,
            },
    )
}

fn lookup_description(descriptions: &Vec<(String, String)>, name: &String) -> (r: Option<String>)
    ensures
        opt_view(r) == description_for(descriptions@, name@, 0),
{
    let mut k: usize = 0;
    while k < descriptions.len()
        invariant
            0 <= k <= descriptions@.len(),
            description_for(descriptions@, name@, 0) == description_for(descriptions@, name@, k as int),
        decreases descriptions@.len() - k,
    {
        if descriptions[k].0 == *name {
            return Some(descriptions[k].1.clone());
        }
        k = k + 1;
    }
    None
}

fn describe(attrs: Vec<AttributeInfo>, descriptions: &Vec<(String, String)>) -> (r: Vec<AttributeInfo>)
    ensures
        attrs_view(r@) == described(attrs_view(attrs@), descriptions@),
{
    let ghost all = attrs_view(attrs@);
    let mut rest = attrs;
    let mut out: Vec<AttributeInfo> = Vec::new();
    assert(attrs_view(out@) =~= described(all.subrange(all.len() as int, all.len() as int), descriptions@));
    // Taken from the back, each put in front of those already done.
    while rest.len() > 0
        invariant
            rest@.len() <= all.len(),
            forall|k: int| 0 <= k < rest@.len() ==> attrs_view(rest@)[k] == all[k],
            attrs_view(out@) == described(all.subrange(rest@.len() as int, all.len() as int), descriptions@),
        decreases rest@.len(),
    {
        let ghost m = rest@.len();
        let a = rest.pop().unwrap();
        assert(a@ == all[m - 1]);
        let d = lookup_description(descriptions, &a.name);
        let ghost av = a@;
        let updated = match d {
            Some(desc) => AttributeInfo { description: Some(desc), ..a },
            None => a,
        };
        let ghost expected = match description_for(descriptions@, av.name, 0) {
            Some(dd) => SpecAttributeInfo { description: Some(dd), ..av },
            None => av,
        };
        assert(updated@ =~~= expected);
        let ghost old_out = out@;
        out.insert(0, updated);
        proof {
            old_out.insert_ensures(0, updated);
            let want = described(all.subrange(m - 1, all.len() as int), descriptions@);
            let prev = described(all.subrange(m as int, all.len() as int), descriptions@);
            assert(attrs_view(old_out).len() == old_out.len());
            assert(prev.len() == all.len() - m);
            assert(old_out.len() == all.len() - m);
            assert(out@.len() == old_out.len() + 1);
            assert(want.len() == attrs_view(out@).len());
            assert forall|k: int| 0 <= k < want.len() implies want[k] == attrs_view(out@)[k] by {
                if k > 0 {
                    assert(all.subrange(m - 1, all.len() as int)[k] == all.subrange(m as int, all.len() as int)[k - 1]);
                    assert(prev[k - 1] == attrs_view(old_out)[k - 1]);
                    assert(out@[k] == old_out[k - 1]);
                }
            }
        }
        assert(attrs_view(out@) =~= described(all.subrange(m - 1, all.len() as int), descriptions@));
    }
    assert(all.subrange(0, all.len() as int) =~= all);
    out
}

impl RuleMetadata {
    pub fn with_prompt_template(self, template: &str) -> (m: Self)
        ensures
            opt_view(m.prompt_template) == Some(template@),
            m.name == self.name,
            m.description == self.description,
            m.rule_type == self.rule_type,
            m.product_name == self.product_name,
            m.system_prompt == self.system_prompt,
            m.inputs == self.inputs,
            m.outputs == self.outputs,
    {
        RuleMetadata { prompt_template: Some(template.to_owned()), ..self }
    }

    pub fn with_system_prompt(self, prompt: &str) -> (m: Self)
        ensures
            opt_view(m.system_prompt) == Some(prompt@),
            m.name == self.name,
            m.description == self.description,
            m.rule_type == self.rule_type,
            m.product_name == self.product_name,
            m.prompt_template == self.prompt_template,
            m.inputs == self.inputs,
            m.outputs == self.outputs,
    {
        RuleMetadata { system_prompt: Some(prompt.to_owned()), ..self }
    }

    /// Gives each input named in `descriptions` (name, description) its
    /// description.
    pub fn with_input_descriptions(self, descriptions: Vec<(String, String)>) -> (m: Self)
        ensures
            attrs_view(m.inputs@) == described(attrs_view(self.inputs@), descriptions@),
            m.outputs == self.outputs,
            m.name == self.name,
            m.description == self.description,
            m.rule_type == self.rule_type,
            m.product_name == self.product_name,
            m.prompt_template == self.prompt_template,
            m.system_prompt == self.system_prompt,
    {
        let RuleMetadata {
            name,
            description,
            rule_type,
            product_name,
            inputs,
            outputs,
            prompt_template,
            system_prompt,
        } = self;
        let inputs = describe(inputs, &descriptions);
        RuleMetadata { name, description, rule_type, product_name, inputs, outputs, prompt_template, system_prompt }
    }

    /// Gives each output named in `descriptions` (name, description) its
    /// description.
    pub fn with_output_descriptions(self, descriptions: Vec<(String, String)>) -> (m: Self)
        ensures
            attrs_view(m.outputs@) == described(attrs_view(self.outputs@), descriptions@),
            m.inputs == self.inputs,
            m.name == self.name,
            m.description == self.description,
            m.rule_type == self.rule_type,
            m.product_name == self.product_name,
            m.prompt_template == self.prompt_template,
            m.system_prompt == self.system_prompt,
    {
        let RuleMetadata {
            name,
            description,
            rule_type,
            product_name,
            inputs,
            outputs,
            prompt_template,
            system_prompt,
        } = self;
        let outputs = describe(outputs, &descriptions);
        RuleMetadata { name, description, rule_type, product_name, inputs, outputs, prompt_template, system_prompt }
    }
}

impl Default for RuleMetadata {
    fn default() -> (m: Self)
        ensures
            m.name@ == Seq::<char>::empty(),
            m.description is None,
            m.rule_type is None,
            m.product_name is None,
            m.inputs@.len() == 0,
            m.outputs@.len() == 0,
            m.prompt_template is None,
            m.system_prompt is None,
    {
        RuleMetadata {
            name: String::new(),
            description: None,
            rule_type: None,
            product_name: None,
            inputs: Vec::new(),
            outputs: Vec::new(),
            prompt_template: None,
            system_prompt: None,
        }
    }
}

} // verus!
