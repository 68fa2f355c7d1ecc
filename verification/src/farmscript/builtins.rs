//! Built-in functions for FarmScript
//!
//! Defines the standard library of functions available in FarmScript
//! expressions.  The table is [`builtin_table`]; [`builtins`] builds it.

use vstd::prelude::*;
use crate::text::{chars_eq_str, str_chars};

verus! {

/// Description of a built-in function
#[derive(Debug)]
pub struct BuiltinFn {
    /// Function name
    pub name: &'static str,
    /// Description
    pub description: &'static str,
    /// Number of arguments (min, max). None for max means variadic.
    pub arity: (usize, Option<usize>),
    /// Argument names (for documentation)
    pub args: Vec<&'static str>,
    /// JSON Logic operator (if direct mapping)
    pub json_logic_op: Option<&'static str>,
    /// Category
    pub category: FnCategory,
}

/// Function category
#[derive(Debug, Clone, Copy, PartialEq, Eq, Structural)]
pub enum FnCategory {
    Math,
    Aggregation,
    String,
    Array,
    Logic,
    Data,
    Debug,
}

/// Model of a [`BuiltinFn`].
#[verifier::ext_equal]
pub struct SpecBuiltin {
    pub name: Seq<char>,
    pub description: Seq<char>,
    pub arity: (usize, Option<usize>),
    pub args: Seq<Seq<char>>,
    pub json_logic_op: Option<Seq<char>>,
    pub category: FnCategory,
}

pub open spec fn opt_str_view(o: Option<&'static str>) -> Option<Seq<char>> {
    match o {
        Some(s) => Some(s@),
        None => None,
    }
}

impl View for BuiltinFn {
    type V = SpecBuiltin;

    open spec fn view(&self) -> SpecBuiltin {
        SpecBuiltin {
            name: self.name@,
            description: self.description@,
            arity: self.arity,
            args: self.args@.map_values(|a: &'static str| a@),
            json_logic_op: opt_str_view(self.json_logic_op),
            category: self.category,
        }
    }
}

pub open spec fn builtins_view(v: Seq<BuiltinFn>) -> Seq<SpecBuiltin> {
    v.map_values(|b: BuiltinFn| b@)
}

/// All built-in functions, in order.
pub open spec fn builtin_table() -> Seq<SpecBuiltin> {
    seq![
        SpecBuiltin { name: "abs"@, description: "Absolute value"@, arity: (1, Some(1)), args: seq!["x"@], json_logic_op: None, category: FnCategory::Math },
        SpecBuiltin { name: "round"@, description: "Round to nearest integer or specified decimals"@, arity: (1, Some(2)), args: seq!["x"@, "decimals?"@], json_logic_op: Some("round"@), category: FnCategory::Math },
        SpecBuiltin { name: "floor"@, description: "Round down to integer"@, arity: (1, Some(1)), args: seq!["x"@], json_logic_op: Some("floor"@), category: FnCategory::Math },
        SpecBuiltin { name: "ceil"@, description: "Round up to integer"@, arity: (1, Some(1)), args: seq!["x"@], json_logic_op: Some("ceil"@), category: FnCategory::Math },
        SpecBuiltin { name: "pow"@, description: "Raise to power (also: x ^ y)"@, arity: (2, Some(2)), args: seq!["base"@, "exponent"@], json_logic_op: Some("pow"@), category: FnCategory::Math },
        SpecBuiltin { name: "sqrt"@, description: "Square root"@, arity: (1, Some(1)), args: seq!["x"@], json_logic_op: Some("sqrt"@), category: FnCategory::Math },
        SpecBuiltin { name: "clamp"@, description: "Clamp value between min and max"@, arity: (3, Some(3)), args: seq!["min"@, "max"@, "value"@], json_logic_op: None, category: FnCategory::Math },
        SpecBuiltin { name: "safe_div"@, description: "Safe division, returns default if divisor is 0"@, arity: (2, Some(3)), args: seq!["a"@, "b"@, "default?"@], json_logic_op: None, category: FnCategory::Math },
        SpecBuiltin { name: "min"@, description: "Minimum of values"@, arity: (1, None), args: seq!["values..."@], json_logic_op: Some("min"@), category: FnCategory::Aggregation },
        SpecBuiltin { name: "max"@, description: "Maximum of values"@, arity: (1, None), args: seq!["values..."@], json_logic_op: Some("max"@), category: FnCategory::Aggregation },
        SpecBuiltin { name: "sum"@, description: "Sum of values"@, arity: (1, None), args: seq!["values..."@], json_logic_op: Some("+"@), category: FnCategory::Aggregation },
        SpecBuiltin { name: "count"@, description: "Count elements in array"@, arity: (1, Some(1)), args: seq!["array"@], json_logic_op: Some("count"@), category: FnCategory::Aggregation },
        SpecBuiltin { name: "cat"@, description: "Concatenate strings"@, arity: (1, None), args: seq!["values..."@], json_logic_op: Some("cat"@), category: FnCategory::String },
        SpecBuiltin { name: "substr"@, description: "Extract substring"@, arity: (2, Some(3)), args: seq!["string"@, "start"@, "length?"@], json_logic_op: Some("substr"@), category: FnCategory::String },
        SpecBuiltin { name: "len"@, description: "Length of string or array"@, arity: (1, Some(1)), args: seq!["value"@], json_logic_op: Some("len"@), category: FnCategory::String },
        SpecBuiltin { name: "length"@, description: "Alias for len"@, arity: (1, Some(1)), args: seq!["value"@], json_logic_op: Some("len"@), category: FnCategory::String },
        SpecBuiltin { name: "map"@, description: "Transform each element"@, arity: (2, Some(2)), args: seq!["array"@, "mapper"@], json_logic_op: Some("map"@), category: FnCategory::Array },
        SpecBuiltin { name: "filter"@, description: "Filter elements by predicate"@, arity: (2, Some(2)), args: seq!["array"@, "predicate"@], json_logic_op: Some("filter"@), category: FnCategory::Array },
        SpecBuiltin { name: "reduce"@, description: "Reduce array to single value"@, arity: (3, Some(3)), args: seq!["array"@, "reducer"@, "initial"@], json_logic_op: Some("reduce"@), category: FnCategory::Array },
        SpecBuiltin { name: "all"@, description: "Check if all elements satisfy predicate"@, arity: (2, Some(2)), args: seq!["array"@, "predicate"@], json_logic_op: Some("all"@), category: FnCategory::Array },
        SpecBuiltin { name: "some"@, description: "Check if any element satisfies predicate"@, arity: (2, Some(2)), args: seq!["array"@, "predicate"@], json_logic_op: Some("some"@), category: FnCategory::Array },
        SpecBuiltin { name: "none"@, description: "Check if no element satisfies predicate"@, arity: (2, Some(2)), args: seq!["array"@, "predicate"@], json_logic_op: Some("none"@), category: FnCategory::Array },
        SpecBuiltin { name: "merge"@, description: "Merge arrays"@, arity: (1, None), args: seq!["arrays..."@], json_logic_op: Some("merge"@), category: FnCategory::Array },
        SpecBuiltin { name: "contains"@, description: "Check if array/string contains value"@, arity: (2, Some(2)), args: seq!["haystack"@, "needle"@], json_logic_op: None, category: FnCategory::Array },
        SpecBuiltin { name: "missing"@, description: "List of missing variables"@, arity: (1, None), args: seq!["vars..."@], json_logic_op: Some("missing"@), category: FnCategory::Data },
        SpecBuiltin { name: "missing_some"@, description: "Missing variables if fewer than required"@, arity: (2, Some(2)), args: seq!["required_count"@, "vars"@], json_logic_op: Some("missing_some"@), category: FnCategory::Data },
        SpecBuiltin { name: "log"@, description: "Log value for debugging"@, arity: (1, Some(1)), args: seq!["value"@], json_logic_op: Some("log"@), category: FnCategory::Debug },
    ]
}

/// The first entry of `t` from the `k`-th on named `name`.
pub open spec fn find_builtin(t: Seq<SpecBuiltin>, name: Seq<char>, k: int) -> Option<SpecBuiltin>
    decreases t.len() - k,
{
    if k < 0 || k >= t.len() {
        None
    } else if t[k].name == name {
        Some(t[k])
    } else {
        find_builtin(t, name, k + 1)
    }
}

/// All built-in functions
pub fn builtins() -> (v: Vec<BuiltinFn>)
    ensures
        builtins_view(v@) == builtin_table(),
{
    let mut v: Vec<BuiltinFn> = Vec::new();
    v.push(BuiltinFn { name: "abs", description: "Absolute value", arity: (1, Some(1)), args: vec!["x"], json_logic_op: None, category: FnCategory::Math });
    v.push(BuiltinFn { name: "round", description: "Round to nearest integer or specified decimals", arity: (1, Some(2)), args: vec!["x", "decimals?"], json_logic_op: Some("round"), category: FnCategory::Math });
    v.push(BuiltinFn { name: "floor", description: "Round down to integer", arity: (1, Some(1)), args: vec!["x"], json_logic_op: Some("floor"), category: FnCategory::Math });
    v.push(BuiltinFn { name: "ceil", description: "Round up to integer", arity: (1, Some(1)), args: vec!["x"], json_logic_op: Some("ceil"), category: FnCategory::Math });
    v.push(BuiltinFn { name: "pow", description: "Raise to power (also: x ^ y)", arity: (2, Some(2)), args: vec!["base", "exponent"], json_logic_op: Some("pow"), category: FnCategory::Math });
    v.push(BuiltinFn { name: "sqrt", description: "Square root", arity: (1, Some(1)), args: vec!["x"], json_logic_op: Some("sqrt"), category: FnCategory::Math });
    v.push(BuiltinFn { name: "clamp", description: "Clamp value between min and max", arity: (3, Some(3)), args: vec!["min", "max", "value"], json_logic_op: None, category: FnCategory::Math });
    v.push(BuiltinFn { name: "safe_div", description: "Safe division, returns default if divisor is 0", arity: (2, Some(3)), args: vec!["a", "b", "default?"], json_logic_op: None, category: FnCategory::Math });
    v.push(BuiltinFn { name: "min", description: "Minimum of values", arity: (1, None), args: vec!["values..."], json_logic_op: Some("min"), category: FnCategory::Aggregation });
    v.push(BuiltinFn { name: "max", description: "Maximum of values", arity: (1, None), args: vec!["values..."], json_logic_op: Some("max"), category: FnCategory::Aggregation });
    v.push(BuiltinFn { name: "sum", description: "Sum of values", arity: (1, None), args: vec!["values..."], json_logic_op: Some("+"), category: FnCategory::Aggregation });
    v.push(BuiltinFn { name: "count", description: "Count elements in array", arity: (1, Some(1)), args: vec!["array"], json_logic_op: Some("count"), category: FnCategory::Aggregation });
    v.push(BuiltinFn { name: "cat", description: "Concatenate strings", arity: (1, None), args: vec!["values..."], json_logic_op: Some("cat"), category: FnCategory::String });
    v.push(BuiltinFn { name: "substr", description: "Extract substring", arity: (2, Some(3)), args: vec!["string", "start", "length?"], json_logic_op: Some("substr"), category: FnCategory::String });
    v.push(BuiltinFn { name: "len", description: "Length of string or array", arity: (1, Some(1)), args: vec!["value"], json_logic_op: Some("len"), category: FnCategory::String });
    v.push(BuiltinFn { name: "length", description: "Alias for len", arity: (1, Some(1)), args: vec!["value"], json_logic_op: Some("len"), category: FnCategory::String });
    v.push(BuiltinFn { name: "map", description: "Transform each element", arity: (2, Some(2)), args: vec!["array", "mapper"], json_logic_op: Some("map"), category: FnCategory::Array });
    v.push(BuiltinFn { name: "filter", description: "Filter elements by predicate", arity: (2, Some(2)), args: vec!["array", "predicate"], json_logic_op: Some("filter"), category: FnCategory::Array });
    v.push(BuiltinFn { name: "reduce", description: "Reduce array to single value", arity: (3, Some(3)), args: vec!["array", "reducer", "initial"], json_logic_op: Some("reduce"), category: FnCategory::Array });
    v.push(BuiltinFn { name: "all", description: "Check if all elements satisfy predicate", arity: (2, Some(2)), args: vec!["array", "predicate"], json_logic_op: Some("all"), category: FnCategory::Array });
    v.push(BuiltinFn { name: "some", description: "Check if any element satisfies predicate", arity: (2, Some(2)), args: vec!["array", "predicate"], json_logic_op: Some("some"), category: FnCategory::Array });
    v.push(BuiltinFn { name: "none", description: "Check if no element satisfies predicate", arity: (2, Some(2)), args: vec!["array", "predicate"], json_logic_op: Some("none"), category: FnCategory::Array });
    v.push(BuiltinFn { name: "merge", description: "Merge arrays", arity: (1, None), args: vec!["arrays..."], json_logic_op: Some("merge"), category: FnCategory::Array });
    v.push(BuiltinFn { name: "contains", description: "Check if array/string contains value", arity: (2, Some(2)), args: vec!["haystack", "needle"], json_logic_op: None, category: FnCategory::Array });
    v.push(BuiltinFn { name: "missing", description: "List of missing variables", arity: (1, None), args: vec!["vars..."], json_logic_op: Some("missing"), category: FnCategory::Data });
    v.push(BuiltinFn { name: "missing_some", description: "Missing variables if fewer than required", arity: (2, Some(2)), args: vec!["required_count", "vars"], json_logic_op: Some("missing_some"), category: FnCategory::Data });
    v.push(BuiltinFn { name: "log", description: "Log value for debugging", arity: (1, Some(1)), args: vec!["value"], json_logic_op: Some("log"), category: FnCategory::Debug });
    assert(builtins_view(v@) =~~= builtin_table());
    v
}

/// Get builtin by name
pub fn get_builtin(name: &str) -> (r: Option<BuiltinFn>)
    ensures
        match r {
            Some(b) => find_builtin(builtin_table(), name@, 0) == Some(b@),
            None => find_builtin(builtin_table(), name@, 0) is None,
        },
{
    let all = builtins();
    let ghost t = builtin_table();
    let mut i: usize = 0;
    while i < all.len()
        invariant
            0 <= i <= all@.len(),
            builtins_view(all@) == t,
            t == builtin_table(),
            find_builtin(t, name@, 0) == find_builtin(t, name@, i as int),
        decreases all@.len() - i,
    {
        let n = str_chars(all[i].name);
        assert(t[i as int] == all@[i as int]@);
        if chars_eq_str(n.as_slice(), name) {
            return Some(all[i].clone_fn());
        }
        i = i + 1;
    }
    None
}

/// Get all builtins in a category
pub fn builtins_by_category(category: FnCategory) -> (v: Vec<BuiltinFn>)
    ensures
        builtins_view(v@) == builtin_table().filter(|b: SpecBuiltin| b.category == category),
{
    let all = builtins();
    let ghost t = builtin_table();
    let ghost pred = |b: SpecBuiltin| b.category == category;
    let mut out: Vec<BuiltinFn> = Vec::new();
    let mut i: usize = 0;
    while i < all.len()
        invariant
            0 <= i <= all@.len(),
            builtins_view(all@) == t,
            pred == (|b: SpecBuiltin| b.category == category),
            builtins_view(out@) == t.subrange(0, i as int).filter(pred),
        decreases all@.len() - i,
    {
        assert(t.subrange(0, i + 1).drop_last() =~= t.subrange(0, i as int));
        assert(t.subrange(0, i + 1).last() == all@[i as int]@);
        reveal_with_fuel(Seq::filter, 1);
        if all[i].category == category {
            let ghost before = out@;
            out.push(all[i].clone_fn());
            assert(builtins_view(out@) =~= builtins_view(before).push(all@[i as int]@));
        }
        i = i + 1;
    }
    assert(t.subrange(0, all@.len() as int) =~= t);
    out
}

/// No two built-in functions have the same name.
pub proof fn lemma_builtin_names_unique()
    ensures
        forall|i: int, j: int|
            0 <= i < j < builtin_table().len() ==> builtin_table()[i].name != builtin_table()[j].name,
{
    reveal_strlit("abs");
    reveal_strlit("round");
    reveal_strlit("floor");
    reveal_strlit("ceil");
    reveal_strlit("pow");
    reveal_strlit("sqrt");
    reveal_strlit("clamp");
    reveal_strlit("safe_div");
    reveal_strlit("min");
    reveal_strlit("max");
    reveal_strlit("sum");
    reveal_strlit("count");
    reveal_strlit("cat");
    reveal_strlit("substr");
    reveal_strlit("len");
    reveal_strlit("length");
    reveal_strlit("map");
    reveal_strlit("filter");
    reveal_strlit("reduce");
    reveal_strlit("all");
    reveal_strlit("some");
    reveal_strlit("none");
    reveal_strlit("merge");
    reveal_strlit("contains");
    reveal_strlit("missing");
    reveal_strlit("missing_some");
    reveal_strlit("log");
    let t = builtin_table();
    assert forall|i: int, j: int| 0 <= i < j < t.len() implies t[i].name != t[j].name by {
        if t[i].name == t[j].name {
            assert(t[i].name.len() == t[j].name.len());
            assert(t[i].name[0] == t[j].name[0]);
            assert(t[i].name[t[i].name.len() - 1] == t[j].name[t[j].name.len() - 1]);
        }
    }
}

/// In a table whose names are unique, looking up an entry's name finds it.
pub proof fn lemma_find_builtin_unique(t: Seq<SpecBuiltin>, i: int, k: int)
    requires
        0 <= k <= i < t.len(),
        forall|a: int, b: int| 0 <= a < b < t.len() ==> t[a].name != t[b].name,
    ensures
        find_builtin(t, t[i].name, k) == Some(t[i]),
    decreases i - k,
{
    if k < i {
        assert(t[k].name != t[i].name);
        lemma_find_builtin_unique(t, i, k + 1);
    }
}

/// All builtins paired with their names, in table order: each name once,
/// and each entry the one `get_builtin` gives for its name.
pub fn builtins_map() -> (v: Vec<(&'static str, BuiltinFn)>)
    ensures
        v@.len() == builtin_table().len(),
        forall|i: int| 0 <= i < v@.len() ==> (#[trigger] v@[i]).0@ == builtin_table()[i].name && v@[i].1@ == builtin_table()[i],
        forall|i: int, j: int| 0 <= i < j < v@.len() ==> v@[i].0@ != v@[j].0@,
        forall|i: int| 0 <= i < v@.len() ==> find_builtin(builtin_table(), (#[trigger] v@[i]).0@, 0) == Some(v@[i].1@),
{
    proof {
        lemma_builtin_names_unique();
        assert forall|i: int| 0 <= i < builtin_table().len() implies find_builtin(
            builtin_table(),
            #[trigger] builtin_table()[i].name,
            0,
        ) == Some(builtin_table()[i]) by {
            lemma_find_builtin_unique(builtin_table(), i, 0);
        }
    }
    let all = builtins();
    let mut out: Vec<(&'static str, BuiltinFn)> = Vec::new();
    let mut i: usize = 0;
    while i < all.len()
        invariant
            0 <= i <= all@.len(),
            builtins_view(all@) == builtin_table(),
            out@.len() == i,
            forall|k: int| 0 <= k < i ==> (#[trigger] out@[k]).0@ == builtin_table()[k].name && out@[k].1@ == builtin_table()[k],
        decreases all@.len() - i,
    {
        assert(builtin_table()[i as int] == all@[i as int]@);
        out.push((all[i].name, all[i].clone_fn()));
        i = i + 1;
    }
    out
}

impl BuiltinFn {
    /// A copy of this description.
    pub fn clone_fn(&self) -> (r: BuiltinFn)
        ensures
            r@ == self@,
    {
        let mut args: Vec<&'static str> = Vec::new();
        let mut i: usize = 0;
        while i < self.args.len()
            invariant
                0 <= i <= self.args@.len(),
                args@ == self.args@.subrange(0, i as int),
            decreases self.args@.len() - i,
        {
            args.push(self.args[i]);
            i = i + 1;
            assert(args@ =~= self.args@.subrange(0, i as int));
        }
        assert(args@ =~= self.args@);
        BuiltinFn {
            name: self.name,
            description: self.description,
            arity: self.arity,
            args,
            json_logic_op: self.json_logic_op,
            category: self.category,
        }
    }
}

} // verus!
