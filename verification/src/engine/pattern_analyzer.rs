//! Pattern analysis of rules: the patterns a JSON Logic expression uses,
//! its complexity, and what can be said of a rule in words.  The scores
//! and averages of a whole rule set (floating point) are computed outside
//! the library.

use vstd::prelude::*;
use crate::engine::number_text::{fraction_text, is_fraction_text};
use crate::json::{Json, SpecJson};
use crate::engine::dag::{join, push_joined, strings_view};
use crate::farmscript::token::{decimal_nat, nat_to_chars};
use crate::text::{
    insert_sorted, sorted_unique, byte_len, bytes_exceed, char_is_uppercase, chars_equal, chars_eq_str, contains_seq, contains_str, push_chars,
    push_str, str_chars, str_to_lowercase, string_from_chars, unicode_lowercase, unicode_uppercase,
};

verus! {

/// Pattern categories detected in an expression
#[derive(Debug, Clone, PartialEq)]
pub enum PatternCategory {
    /// Calculation patterns (arithmetic, aggregation)
    Calculation(CalculationType),
    /// Conditional logic patterns
    Conditional(ConditionalType),
    /// Data transformation patterns
    Transformation(TransformationType),
    /// Validation patterns
    Validation(ValidationType),
    /// Lookup/reference patterns
    Lookup(LookupType),
    /// Aggregation patterns
    Aggregation(AggregationType),
    /// Custom/unknown patterns
    Custom(String),
}

#[derive(Debug, Clone, Copy, PartialEq, Eq, Structural)]
pub enum CalculationType {
    /// base * factor
    Multiplication,
    /// amount / count
    Division,
    /// sum of values
    Addition,
    /// difference
    Subtraction,
    /// value * 0.xx or value / 100
    Percentage,
    /// multiple operations
    Compound,
    /// round, floor, ceil
    Rounding,
}

#[derive(Debug, Clone, Copy, PartialEq, Eq, Structural)]
pub enum ConditionalType {
    /// if value < threshold
    ThresholdBased,
    /// if min <= value <= max
    RangeBased,
    /// if status == "active"
    EqualityCheck,
    /// if A and B and C
    MultiCondition,
    /// if/else if/else if/else (multiple tiers)
    Tiered,
    /// and/or combinations
    BooleanLogic,
}

#[derive(Debug, Clone, Copy, PartialEq, Eq, Structural)]
pub enum TransformationType {
    /// string to number, etc.
    TypeConversion,
    /// date format, number format
    Formatting,
    /// standardize values
    Normalization,
    /// map values to other values
    Mapping,
    /// string joining
    Concatenation,
}

#[derive(Debug, Clone, Copy, PartialEq, Eq, Structural)]
pub enum ValidationType {
    /// value in bounds
    RangeCheck,
    /// not null/empty
    RequiredField,
    /// regex validation
    PatternMatch,
    /// field A depends on field B
    CrossField,
    /// complex validation logic
    BusinessRule,
}

#[derive(Debug, Clone, Copy, PartialEq, Eq, Structural)]
pub enum LookupType {
    /// lookup from reference data
    TableLookup,
    /// simple var access
    VariableAccess,
    /// object.property.subproperty
    NestedAccess,
    /// array[index]
    ArrayIndex,
    /// object[variable]
    DynamicKey,
}

#[derive(Debug, Clone, Copy, PartialEq, Eq, Structural)]
pub enum AggregationType {
    Sum,
    Average,
    Count,
    Min,
    Max,
    First,
    Last,
    /// all items match
    All,
    /// any item matches
    SomeItems,
    /// no items match
    NoItems,
}

/// The place of a pattern in the order of the patterns' debug names
/// (`Aggregation(All)` first, `Validation(RequiredField)` last; `SomeItems`
/// and `NoItems` stand where the names `Some` and `None` would).
pub open spec fn pattern_rank(p: PatternCategory) -> nat {
    match p {
        PatternCategory::Calculation(x) => match x {
            CalculationType::Multiplication => 13,
            CalculationType::Division => 12,
            CalculationType::Addition => 10,
            CalculationType::Subtraction => 16,
            CalculationType::Percentage => 14,
            CalculationType::Compound => 11,
            CalculationType::Rounding => 15,
        },
        PatternCategory::Conditional(x) => match x {
            ConditionalType::ThresholdBased => 21,
            ConditionalType::RangeBased => 20,
            ConditionalType::EqualityCheck => 18,
            ConditionalType::MultiCondition => 19,
            ConditionalType::Tiered => 22,
            ConditionalType::BooleanLogic => 17,
        },
        PatternCategory::Transformation(x) => match x {
            TransformationType::TypeConversion => 33,
            TransformationType::Formatting => 30,
            TransformationType::Normalization => 32,
            TransformationType::Mapping => 31,
            TransformationType::Concatenation => 29,
        },
        PatternCategory::Validation(x) => match x {
            ValidationType::RangeCheck => 37,
            ValidationType::RequiredField => 38,
            ValidationType::PatternMatch => 36,
            ValidationType::CrossField => 35,
            ValidationType::BusinessRule => 34,
        },
        PatternCategory::Lookup(x) => match x {
            LookupType::TableLookup => 27,
            LookupType::VariableAccess => 28,
            LookupType::NestedAccess => 26,
            LookupType::ArrayIndex => 24,
            LookupType::DynamicKey => 25,
        },
        PatternCategory::Aggregation(x) => match x {
            AggregationType::Sum => 9,
            AggregationType::Average => 1,
            AggregationType::Count => 2,
            AggregationType::Min => 6,
            AggregationType::Max => 5,
            AggregationType::First => 3,
            AggregationType::Last => 4,
            AggregationType::All => 0,
            AggregationType::SomeItems => 8,
            AggregationType::NoItems => 7,
        },
        PatternCategory::Custom(_) => 23,
    }
}

impl PatternCategory {
    /// The pattern's place in the order of debug names (see [`pattern_rank`]).
    pub fn rank(&self) -> (r: u8)
        ensures
            r as nat == pattern_rank(*self),
    {
        match self {
            PatternCategory::Calculation(x) => match x {
                CalculationType::Multiplication => 13,
                CalculationType::Division => 12,
                CalculationType::Addition => 10,
                CalculationType::Subtraction => 16,
                CalculationType::Percentage => 14,
                CalculationType::Compound => 11,
                CalculationType::Rounding => 15,
            },
            PatternCategory::Conditional(x) => match x {
                ConditionalType::ThresholdBased => 21,
                ConditionalType::RangeBased => 20,
                ConditionalType::EqualityCheck => 18,
                ConditionalType::MultiCondition => 19,
                ConditionalType::Tiered => 22,
                ConditionalType::BooleanLogic => 17,
            },
            PatternCategory::Transformation(x) => match x {
                TransformationType::TypeConversion => 33,
                TransformationType::Formatting => 30,
                TransformationType::Normalization => 32,
                TransformationType::Mapping => 31,
                TransformationType::Concatenation => 29,
            },
            PatternCategory::Validation(x) => match x {
                ValidationType::RangeCheck => 37,
                ValidationType::RequiredField => 38,
                ValidationType::PatternMatch => 36,
                ValidationType::CrossField => 35,
                ValidationType::BusinessRule => 34,
            },
            PatternCategory::Lookup(x) => match x {
                LookupType::TableLookup => 27,
                LookupType::VariableAccess => 28,
                LookupType::NestedAccess => 26,
                LookupType::ArrayIndex => 24,
                LookupType::DynamicKey => 25,
            },
            PatternCategory::Aggregation(x) => match x {
                AggregationType::Sum => 9,
                AggregationType::Average => 1,
                AggregationType::Count => 2,
                AggregationType::Min => 6,
                AggregationType::Max => 5,
                AggregationType::First => 3,
                AggregationType::Last => 4,
                AggregationType::All => 0,
                AggregationType::SomeItems => 8,
                AggregationType::NoItems => 7,
            },
            PatternCategory::Custom(_) => 23,
        }
    }
}

/// Two patterns other than `Custom` with the same place are the same.
pub proof fn lemma_rank_injective(p: PatternCategory, q: PatternCategory)
    requires
        !(p is Custom),
        !(q is Custom),
        pattern_rank(p) == pattern_rank(q),
    ensures
        p == q,
{
}

// ---------------------------------------------------------------------------
// Detecting patterns
// ---------------------------------------------------------------------------

pub open spec fn calc(t: CalculationType) -> PatternCategory {
    PatternCategory::Calculation(t)
}

pub open spec fn cond(t: ConditionalType) -> PatternCategory {
    PatternCategory::Conditional(t)
}

pub open spec fn agg(t: AggregationType) -> PatternCategory {
    PatternCategory::Aggregation(t)
}

/// Whether the arguments of a multiplication hold a number strictly between
/// 0 and 1 (a percentage factor).
pub open spec fn percentage_args(args: SpecJson) -> bool {
    match args {
        SpecJson::Array(a) => exists|i: int| 0 <= i < a.len() && (#[trigger] a[i] matches SpecJson::Float(t) && is_fraction_text(t)),
        _ => false,
    }
}

/// The pattern one operation shows, given its arguments (`None` for an
/// operation that shows none).
pub open spec fn op_pattern(op: Seq<char>, args: SpecJson) -> Option<PatternCategory> {
    if op == "*"@ {
        if percentage_args(args) {
            Some(calc(CalculationType::Percentage))
        } else {
            Some(calc(CalculationType::Multiplication))
        }
    } else if op == "/"@ {
        Some(calc(CalculationType::Division))
    } else if op == "+"@ {
        Some(calc(CalculationType::Addition))
    } else if op == "-"@ {
        Some(calc(CalculationType::Subtraction))
    } else if op == "<"@ || op == "<="@ || op == ">"@ || op == ">="@ {
        Some(cond(ConditionalType::ThresholdBased))
    } else if op == "=="@ || op == "==="@ || op == "!="@ || op == "!=="@ {
        Some(cond(ConditionalType::EqualityCheck))
    } else if op == "and"@ {
        Some(cond(ConditionalType::MultiCondition))
    } else if op == "or"@ {
        Some(cond(ConditionalType::BooleanLogic))
    } else if op == "if"@ {
        match args {
            SpecJson::Array(a) => if a.len() > 3 {
                Some(cond(ConditionalType::Tiered))
            } else {
                Some(cond(ConditionalType::ThresholdBased))
            },
            _ => None,
        }
    } else if op == "var"@ {
        match args {
            SpecJson::Str(path) => if path.contains('.') {
                Some(PatternCategory::Lookup(LookupType::NestedAccess))
            } else {
                Some(PatternCategory::Lookup(LookupType::VariableAccess))
            },
            _ => None,
        }
    } else if op == "min"@ {
        Some(agg(AggregationType::Min))
    } else if op == "max"@ {
        Some(agg(AggregationType::Max))
    } else if op == "reduce"@ {
        Some(agg(AggregationType::Sum))
    } else if op == "all"@ {
        Some(agg(AggregationType::All))
    } else if op == "some"@ {
        Some(agg(AggregationType::SomeItems))
    } else if op == "none"@ {
        Some(agg(AggregationType::NoItems))
    } else if op == "filter"@ || op == "map"@ {
        Some(PatternCategory::Transformation(TransformationType::Mapping))
    } else if op == "cat"@ {
        Some(PatternCategory::Transformation(TransformationType::Concatenation))
    } else if op == "substr"@ {
        Some(PatternCategory::Transformation(TransformationType::Formatting))
    } else if op == "in"@ {
        Some(PatternCategory::Validation(ValidationType::BusinessRule))
    } else {
        None
    }
}

pub open spec fn opt_set(o: Option<PatternCategory>) -> Set<PatternCategory> {
    match o {
        Some(p) => set![p],
        None => Set::empty(),
    }
}

/// The patterns an expression shows: those of each operation (each key of
/// an object) together with those of its arguments, at every depth.
pub open spec fn detected(j: SpecJson) -> Set<PatternCategory>
    decreases j,
{
    match j {
        SpecJson::Object(m) => members_detected(m),
        SpecJson::Array(a) => items_detected(a),
        _ => Set::empty(),
    }
}

pub open spec fn members_detected(m: Seq<(Seq<char>, SpecJson)>) -> Set<PatternCategory>
    decreases m,
{
    if m.len() == 0 {
        Set::empty()
    } else {
        opt_set(op_pattern(m[0].0, m[0].1)) + detected(m[0].1) + members_detected(m.subrange(1, m.len() as int))
    }
}

pub open spec fn items_detected(a: Seq<SpecJson>) -> Set<PatternCategory>
    decreases a,
{
    if a.len() == 0 {
        Set::empty()
    } else {
        detected(a[0]) + items_detected(a.subrange(1, a.len() as int))
    }
}

/// The pattern of an operation, as a sequence of at most one.
pub open spec fn opt_seq(o: Option<PatternCategory>) -> Seq<PatternCategory> {
    match o {
        Some(p) => seq![p],
        None => Seq::empty(),
    }
}

/// The patterns an expression shows, in the order the analyzer meets them:
/// for each operation (each key of an object, in order) its own pattern
/// and then those of its arguments; repeats included.
pub open spec fn detected_seq(j: SpecJson) -> Seq<PatternCategory>
    decreases j,
{
    match j {
        SpecJson::Object(m) => members_seq(m),
        SpecJson::Array(a) => items_seq(a),
        _ => Seq::empty(),
    }
}

pub open spec fn members_seq(m: Seq<(Seq<char>, SpecJson)>) -> Seq<PatternCategory>
    decreases m,
{
    if m.len() == 0 {
        Seq::empty()
    } else {
        opt_seq(op_pattern(m[0].0, m[0].1)) + detected_seq(m[0].1) + members_seq(m.subrange(1, m.len() as int))
    }
}

pub open spec fn items_seq(a: Seq<SpecJson>) -> Seq<PatternCategory>
    decreases a,
{
    if a.len() == 0 {
        Seq::empty()
    } else {
        detected_seq(a[0]) + items_seq(a.subrange(1, a.len() as int))
    }
}

proof fn lemma_add_to_set<A>(s: Seq<A>, t: Seq<A>)
    ensures
        (s + t).to_set() == s.to_set() + t.to_set(),
{
    assert forall|y: A| (s + t).to_set().contains(y) == (s.to_set() + t.to_set()).contains(y) by {
        if (s + t).contains(y) {
            let k = choose|k: int| 0 <= k < (s + t).len() && (s + t)[k] == y;
            if k < s.len() {
                assert(s[k] == y);
            } else {
                assert(t[k - s.len()] == y);
            }
        }
        if s.contains(y) {
            let k = choose|k: int| 0 <= k < s.len() && s[k] == y;
            assert((s + t)[k] == y);
        }
        if t.contains(y) {
            let k = choose|k: int| 0 <= k < t.len() && t[k] == y;
            assert((s + t)[s.len() + k] == y);
        }
    }
    assert((s + t).to_set() =~= s.to_set() + t.to_set());
}

proof fn lemma_opt_seq_set(o: Option<PatternCategory>)
    ensures
        opt_seq(o).to_set() == opt_set(o),
{
    match o {
        Some(p) => {
            assert(seq![p].to_set() =~= set![p]) by {
                assert(seq![p][0] == p);
            }
        },
        None => {
            assert(Seq::<PatternCategory>::empty().to_set() =~= Set::<PatternCategory>::empty());
        },
    }
}

/// The sequence of patterns holds exactly the patterns of the expression.
pub proof fn lemma_detected_seq_set(j: SpecJson)
    ensures
        detected_seq(j).to_set() == detected(j),
    decreases j,
{
    match j {
        SpecJson::Object(m) => lemma_members_seq_set(m),
        SpecJson::Array(a) => lemma_items_seq_set(a),
        _ => {
            assert(Seq::<PatternCategory>::empty().to_set() =~= Set::<PatternCategory>::empty());
        },
    }
}

pub proof fn lemma_members_seq_set(m: Seq<(Seq<char>, SpecJson)>)
    ensures
        members_seq(m).to_set() == members_detected(m),
    decreases m,
{
    if m.len() == 0 {
        assert(Seq::<PatternCategory>::empty().to_set() =~= Set::<PatternCategory>::empty());
    } else {
        let rest = m.subrange(1, m.len() as int);
        assert(decreases_to!(m => m[0]));
        assert(decreases_to!(m[0] => m[0].1));
        lemma_detected_seq_set(m[0].1);
        lemma_members_seq_set(rest);
        lemma_opt_seq_set(op_pattern(m[0].0, m[0].1));
        let a = opt_seq(op_pattern(m[0].0, m[0].1));
        let b = detected_seq(m[0].1);
        let c = members_seq(rest);
        lemma_add_to_set(a, b);
        lemma_add_to_set(a + b, c);
    }
}

pub proof fn lemma_items_seq_set(a: Seq<SpecJson>)
    ensures
        items_seq(a).to_set() == items_detected(a),
    decreases a,
{
    if a.len() == 0 {
        assert(Seq::<PatternCategory>::empty().to_set() =~= Set::<PatternCategory>::empty());
    } else {
        let rest = a.subrange(1, a.len() as int);
        assert(decreases_to!(a => a[0]));
        lemma_detected_seq_set(a[0]);
        lemma_items_seq_set(rest);
        lemma_add_to_set(detected_seq(a[0]), items_seq(rest));
    }
}

#[verifier::spinoff_prover]
#[verifier::rlimit(30)]
fn percentage_args_exec(args: &Json) -> (r: bool)
    ensures
        r == percentage_args(args@),
{
    match args {
        Json::Array(a) => {
            proof {
                crate::json::lemma_jsons_view(a@);
            }
            let ghost s = crate::json::jsons_view(a@);
            let mut i: usize = 0;
            while i < a.len()
                invariant
                    0 <= i <= a@.len(),
                    s == crate::json::jsons_view(a@),
                    args@ == SpecJson::Array(s),
                    s.len() == a@.len(),
                    forall|k: int| 0 <= k < s.len() ==> #[trigger] s[k] == crate::json::json_view(a@[k]),
                    forall|k: int| 0 <= k < i ==> !(#[trigger] s[k] matches SpecJson::Float(t) && is_fraction_text(t)),
                decreases a@.len() - i,
            {
                match &a[i] {
                    Json::Float(t) => {
                        if fraction_text(t.as_str()) {
                            assert(s[i as int] matches SpecJson::Float(t) && is_fraction_text(t));
                            return true;
                        }
                    },
                    _ => {},
                }
                assert(!(s[i as int] matches SpecJson::Float(t) && is_fraction_text(t)));
                i = i + 1;
            }
            false
        },
        _ => false,
    }
}

fn has_dot(s: &str) -> (r: bool)
    ensures
        r == s@.contains('.'),
{
    let cs = str_chars(s);
    let mut i: usize = 0;
    while i < cs.len()
        invariant
            0 <= i <= cs@.len(),
            cs@ == s@,
            forall|k: int| 0 <= k < i ==> cs@[k] != '.',
        decreases cs@.len() - i,
    {
        if cs[i] == '.' {
            return true;
        }
        i = i + 1;
    }
    false
}

/// The pattern an operation shows (see [`op_pattern`]).
fn op_pattern_exec(op: &str, args: &Json) -> (r: Option<PatternCategory>)
    ensures
        r == op_pattern(op@, args@),
{
    let o = str_chars(op);
    let c = o.as_slice();
    if chars_eq_str(c, "*") {
        if percentage_args_exec(args) {
            Some(PatternCategory::Calculation(CalculationType::Percentage))
        } else {
            Some(PatternCategory::Calculation(CalculationType::Multiplication))
        }
    } else if chars_eq_str(c, "/") {
        Some(PatternCategory::Calculation(CalculationType::Division))
    } else if chars_eq_str(c, "+") {
        Some(PatternCategory::Calculation(CalculationType::Addition))
    } else if chars_eq_str(c, "-") {
        Some(PatternCategory::Calculation(CalculationType::Subtraction))
    } else if chars_eq_str(c, "<") || chars_eq_str(c, "<=") || chars_eq_str(c, ">") || chars_eq_str(c, ">=") {
        Some(PatternCategory::Conditional(ConditionalType::ThresholdBased))
    } else if chars_eq_str(c, "==") || chars_eq_str(c, "===") || chars_eq_str(c, "!=") || chars_eq_str(c, "!==") {
        Some(PatternCategory::Conditional(ConditionalType::EqualityCheck))
    } else if chars_eq_str(c, "and") {
        Some(PatternCategory::Conditional(ConditionalType::MultiCondition))
    } else if chars_eq_str(c, "or") {
        Some(PatternCategory::Conditional(ConditionalType::BooleanLogic))
    } else if chars_eq_str(c, "if") {
        match args {
            Json::Array(a) => {
                proof {
                    crate::json::lemma_jsons_view(a@);
                }
                if a.len() > 3 {
                    Some(PatternCategory::Conditional(ConditionalType::Tiered))
                } else {
                    Some(PatternCategory::Conditional(ConditionalType::ThresholdBased))
                }
            },
            _ => None,
        }
    } else if chars_eq_str(c, "var") {
        match args {
            Json::Str(path) => {
                if has_dot(path.as_str()) {
                    Some(PatternCategory::Lookup(LookupType::NestedAccess))
                } else {
                    Some(PatternCategory::Lookup(LookupType::VariableAccess))
                }
            },
            _ => None,
        }
    } else if chars_eq_str(c, "min") {
        Some(PatternCategory::Aggregation(AggregationType::Min))
    } else if chars_eq_str(c, "max") {
        Some(PatternCategory::Aggregation(AggregationType::Max))
    } else if chars_eq_str(c, "reduce") {
        Some(PatternCategory::Aggregation(AggregationType::Sum))
    } else if chars_eq_str(c, "all") {
        Some(PatternCategory::Aggregation(AggregationType::All))
    } else if chars_eq_str(c, "some") {
        Some(PatternCategory::Aggregation(AggregationType::SomeItems))
    } else if chars_eq_str(c, "none") {
        Some(PatternCategory::Aggregation(AggregationType::NoItems))
    } else if chars_eq_str(c, "filter") || chars_eq_str(c, "map") {
        Some(PatternCategory::Transformation(TransformationType::Mapping))
    } else if chars_eq_str(c, "cat") {
        Some(PatternCategory::Transformation(TransformationType::Concatenation))
    } else if chars_eq_str(c, "substr") {
        Some(PatternCategory::Transformation(TransformationType::Formatting))
    } else if chars_eq_str(c, "in") {
        Some(PatternCategory::Validation(ValidationType::BusinessRule))
    } else {
        None
    }
}

// ---------------------------------------------------------------------------
// Keywords and the analyzer
// ---------------------------------------------------------------------------

/// Natural language keyword patterns for detection
pub struct KeywordPatterns {
    /// Pricing/financial keywords
    pub pricing: Vec<&'static str>,
    /// Risk/assessment keywords
    pub risk: Vec<&'static str>,
    /// Customer/user keywords
    pub customer: Vec<&'static str>,
    /// Discount/promotion keywords
    pub discount: Vec<&'static str>,
    /// Validation keywords
    pub validation: Vec<&'static str>,
    /// Calculation keywords
    pub calculation: Vec<&'static str>,
    /// Eligibility keywords
    pub eligibility: Vec<&'static str>,
    /// Coverage keywords
    pub coverage: Vec<&'static str>,
}

pub open spec fn strs_view(v: Seq<&str>) -> Seq<Seq<char>> {
    v.map_values(|s: &str| s@)
}

/// The default p.ricing/financial keywords
pub open spec fn pricing_keywords() -> Seq<Seq<char>> {
    seq!["price"@, "premium"@, "rate"@, "cost"@, "fee"@, "charge"@, "amount"@, "total"@, "subtotal"@, "tax"@, "commission"@, "margin"@, "markup"@]
}

/// The default r.isk/assessment keywords
pub open spec fn risk_keywords() -> Seq<Seq<char>> {
    seq!["risk"@, "score"@, "factor"@, "rating"@, "assessment"@, "level"@, "hazard"@, "exposure"@, "probability"@, "severity"@, "impact"@]
}

/// The default c.ustomer/user keywords
pub open spec fn customer_keywords() -> Seq<Seq<char>> {
    seq!["customer"@, "user"@, "client"@, "member"@, "subscriber"@, "account"@, "profile"@, "person"@, "individual"@, "applicant"@, "policyholder"@]
}

/// The default d.iscount/promotion keywords
pub open spec fn discount_keywords() -> Seq<Seq<char>> {
    seq!["discount"@, "rebate"@, "reduction"@, "saving"@, "offer"@, "promotion"@, "coupon"@, "loyalty"@, "bonus"@, "credit"@, "waiver"@]
}

/// The default v.alidation keywords
pub open spec fn validation_keywords() -> Seq<Seq<char>> {
    seq!["valid"@, "check"@, "verify"@, "validate"@, "ensure"@, "require"@, "mandatory"@, "eligible"@, "allowed"@, "permitted"@, "approved"@]
}

/// The default c.alculation keywords
pub open spec fn calculation_keywords() -> Seq<Seq<char>> {
    seq!["calculate"@, "compute"@, "derive"@, "formula"@, "equation"@, "multiply"@, "divide"@, "sum"@, "average"@, "aggregate"@]
}

/// The default e.ligibility keywords
pub open spec fn eligibility_keywords() -> Seq<Seq<char>> {
    seq!["eligible"@, "qualify"@, "entitled"@, "applicable"@, "available"@, "permitted"@, "authorized"@, "approved"@, "meets"@, "satisfies"@]
}

/// The default c.overage keywords
pub open spec fn coverage_keywords() -> Seq<Seq<char>> {
    seq!["cover"@, "coverage"@, "insure"@, "protect"@, "benefit"@, "policy"@, "claim"@, "limit"@, "deductible"@, "excess"@, "exclusion"@]
}

impl Default for KeywordPatterns {
    fn default() -> (k: Self)
        ensures
            strs_view(k.pricing@) == pricing_keywords(),
            strs_view(k.risk@) == risk_keywords(),
            strs_view(k.customer@) == customer_keywords(),
            strs_view(k.discount@) == discount_keywords(),
            strs_view(k.validation@) == validation_keywords(),
            strs_view(k.calculation@) == calculation_keywords(),
            strs_view(k.eligibility@) == eligibility_keywords(),
            strs_view(k.coverage@) == coverage_keywords(),
    {
        let k = KeywordPatterns {
            pricing: vec!["price", "premium", "rate", "cost", "fee", "charge", "amount", "total", "subtotal", "tax", "commission", "margin", "markup"],
            risk: vec!["risk", "score", "factor", "rating", "assessment", "level", "hazard", "exposure", "probability", "severity", "impact"],
            customer: vec!["customer", "user", "client", "member", "subscriber", "account", "profile", "person", "individual", "applicant", "policyholder"],
            discount: vec!["discount", "rebate", "reduction", "saving", "offer", "promotion", "coupon", "loyalty", "bonus", "credit", "waiver"],
            validation: vec!["valid", "check", "verify", "validate", "ensure", "require", "mandatory", "eligible", "allowed", "permitted", "approved"],
            calculation: vec!["calculate", "compute", "derive", "formula", "equation", "multiply", "divide", "sum", "average", "aggregate"],
            eligibility: vec!["eligible", "qualify", "entitled", "applicable", "available", "permitted", "authorized", "approved", "meets", "satisfies"],
            coverage: vec!["cover", "coverage", "insure", "protect", "benefit", "policy", "claim", "limit", "deductible", "excess", "exclusion"],
        };
        assert(strs_view(k.pricing@) =~= pricing_keywords());
        assert(strs_view(k.risk@) =~= risk_keywords());
        assert(strs_view(k.customer@) =~= customer_keywords());
        assert(strs_view(k.discount@) =~= discount_keywords());
        assert(strs_view(k.validation@) =~= validation_keywords());
        assert(strs_view(k.calculation@) =~= calculation_keywords());
        assert(strs_view(k.eligibility@) =~= eligibility_keywords());
        assert(strs_view(k.coverage@) =~= coverage_keywords());
        k
    }
}

/// Main pattern analyzer
pub struct PatternAnalyzer {
    keywords: KeywordPatterns,
}

impl PatternAnalyzer {
    /// The keyword lists the analyzer works with.
    pub closed spec fn keywords(&self) -> KeywordPatterns {
        self.keywords
    }

    /// The keyword lists the analyzer works with.
    pub fn keyword_lists(&self) -> (k: &KeywordPatterns)
        ensures
            *k == self.keywords(),
    {
        &self.keywords
    }

    /// An analyzer with the default keyword lists.
    pub fn new() -> (a: Self)

        ensures
            strs_view(a.keywords().pricing@) == pricing_keywords(),
            strs_view(a.keywords().risk@) == risk_keywords(),
            strs_view(a.keywords().customer@) == customer_keywords(),
            strs_view(a.keywords().discount@) == discount_keywords(),
            strs_view(a.keywords().validation@) == validation_keywords(),
            strs_view(a.keywords().calculation@) == calculation_keywords(),
            strs_view(a.keywords().eligibility@) == eligibility_keywords(),
            strs_view(a.keywords().coverage@) == coverage_keywords(),
    {
        PatternAnalyzer { keywords: KeywordPatterns::default() }
    }
}

impl Default for PatternAnalyzer {
    fn default() -> (a: Self)

        ensures
            strs_view(a.keywords().pricing@) == pricing_keywords(),
            strs_view(a.keywords().risk@) == risk_keywords(),
            strs_view(a.keywords().customer@) == customer_keywords(),
            strs_view(a.keywords().discount@) == discount_keywords(),
            strs_view(a.keywords().validation@) == validation_keywords(),
            strs_view(a.keywords().calculation@) == calculation_keywords(),
            strs_view(a.keywords().eligibility@) == eligibility_keywords(),
            strs_view(a.keywords().coverage@) == coverage_keywords(),
    {
        Self::new()
    }
}

/// Whether the ranks of `v` increase strictly: sorted, no pattern twice.
pub open spec fn strictly_ranked(v: Seq<PatternCategory>) -> bool {
    forall|i: int, j: int| 0 <= i < j < v.len() ==> pattern_rank(#[trigger] v[i]) < pattern_rank(#[trigger] v[j])
}

/// No detected pattern is a custom one.
pub proof fn lemma_detected_not_custom(j: SpecJson)
    ensures
        forall|p: PatternCategory| #[trigger] detected(j).contains(p) ==> !(p is Custom),
    decreases j,
{
    match j {
        SpecJson::Object(m) => {
            lemma_members_not_custom(m);
            assert(detected(j) == members_detected(m));
        },
        SpecJson::Array(a) => {
            lemma_items_not_custom(a);
            assert(detected(j) == items_detected(a));
        },
        _ => {},
    }
}

proof fn lemma_members_not_custom(m: Seq<(Seq<char>, SpecJson)>)
    ensures
        forall|p: PatternCategory| #[trigger] members_detected(m).contains(p) ==> !(p is Custom),
    decreases m,
{
    if m.len() > 0 {
        lemma_detected_not_custom(m[0].1);
        lemma_members_not_custom(m.subrange(1, m.len() as int));
        let o = op_pattern(m[0].0, m[0].1);
        assert(o matches Some(q) ==> !(q is Custom));
        assert forall|p: PatternCategory| #[trigger] members_detected(m).contains(p) implies !(p is Custom) by {
            let rest = m.subrange(1, m.len() as int);
            assert(members_detected(m) == opt_set(o) + detected(m[0].1) + members_detected(rest));
            if opt_set(o).contains(p) {
                assert(o == Some(p));
            } else if detected(m[0].1).contains(p) {
            } else {
                assert(members_detected(rest).contains(p));
            }
        }
    }
}

proof fn lemma_items_not_custom(a: Seq<SpecJson>)
    ensures
        forall|p: PatternCategory| #[trigger] items_detected(a).contains(p) ==> !(p is Custom),
    decreases a,
{
    if a.len() > 0 {
        lemma_detected_not_custom(a[0]);
        lemma_items_not_custom(a.subrange(1, a.len() as int));
        assert forall|p: PatternCategory| #[trigger] items_detected(a).contains(p) implies !(p is Custom) by {
            let rest = a.subrange(1, a.len() as int);
            assert(items_detected(a) == detected(a[0]) + items_detected(rest));
            if detected(a[0]).contains(p) {
            } else {
                assert(items_detected(rest).contains(p));
            }
        }
    }
}

/// A copy of a pattern.
pub fn copy_pattern(p: &PatternCategory) -> (r: PatternCategory)
    ensures
        r == *p,
{
    match p {
        PatternCategory::Calculation(t) => PatternCategory::Calculation(*t),
        PatternCategory::Conditional(t) => PatternCategory::Conditional(*t),
        PatternCategory::Transformation(t) => PatternCategory::Transformation(*t),
        PatternCategory::Validation(t) => PatternCategory::Validation(*t),
        PatternCategory::Lookup(t) => PatternCategory::Lookup(*t),
        PatternCategory::Aggregation(t) => PatternCategory::Aggregation(*t),
        PatternCategory::Custom(s) => PatternCategory::Custom(s.clone()),
    }
}

proof fn lemma_push_to_set<A>(s: Seq<A>, x: A)
    ensures
        s.push(x).to_set() == s.to_set().insert(x),
{
    assert forall|y: A| s.push(x).to_set().contains(y) == s.to_set().insert(x).contains(y) by {
        if s.push(x).contains(y) {
            let k = choose|k: int| 0 <= k < s.push(x).len() && s.push(x)[k] == y;
            if k < s.len() {
                assert(s[k] == y);
            }
        }
        if s.contains(y) {
            let k = choose|k: int| 0 <= k < s.len() && s[k] == y;
            assert(s.push(x)[k] == y);
        }
        if y == x {
            assert(s.push(x)[s.len() as int] == y);
        }
    }
    assert(s.push(x).to_set() =~= s.to_set().insert(x));
}

proof fn lemma_insert_to_set<A>(s: Seq<A>, i: int, x: A)
    requires
        0 <= i <= s.len(),
    ensures
        s.insert(i, x).to_set() == s.to_set().insert(x),
{
    let t = s.insert(i, x);
    assert forall|y: A| t.to_set().contains(y) == s.to_set().insert(x).contains(y) by {
        if t.contains(y) {
            let k = choose|k: int| 0 <= k < t.len() && t[k] == y;
            if k < i {
                assert(s[k] == y);
            } else if k > i {
                assert(s[k - 1] == y);
            }
        }
        if s.contains(y) {
            let k = choose|k: int| 0 <= k < s.len() && s[k] == y;
            if k < i {
                assert(t[k] == y);
            } else {
                assert(t[k + 1] == y);
            }
        }
        if y == x {
            assert(t[i] == y);
        }
    }
    assert(t.to_set() =~= s.to_set().insert(x));
}

impl PatternAnalyzer {
    /// Add the patterns of `expr` to `patterns`.
    #[verifier::spinoff_prover]
    #[verifier::rlimit(30)]
    pub fn detect_patterns_recursive(&self, expr: &Json, patterns: &mut Vec<PatternCategory>)
        ensures
            final(patterns)@ == old(patterns)@ + detected_seq(expr@),
            final(patterns)@.to_set() == old(patterns)@.to_set() + detected(expr@),
        decreases expr,
    {
        let ghost start = patterns@;
        match expr {
            Json::Object(m) => {
                proof {
                    crate::json::lemma_members_view(m@);
                }
                let ghost ms = crate::json::members_view(m@);
                assert(ms.subrange(0, ms.len() as int) =~= ms);
                assert(patterns@ + members_seq(ms) =~= start + members_seq(ms));
                let mut i: usize = 0;
                while i < m.len()
                    invariant
                        *expr == Json::Object(*m),
                        0 <= i <= m@.len(),
                        ms == crate::json::members_view(m@),
                        ms.len() == m@.len(),
                        forall|k: int| 0 <= k < m@.len() ==> #[trigger] ms[k] == (m@[k].0@, crate::json::json_view(m@[k].1)),
                        patterns@ + members_seq(ms.subrange(i as int, ms.len() as int)) == start + members_seq(ms),
                    decreases m@.len() - i,
                {
                    proof {
                        assert(decreases_to!(*expr => (*expr)->Object_0));
                        assert(decreases_to!(*m => m@));
                        assert(decreases_to!(m@ => m@[i as int]));
                        assert(decreases_to!(m@[i as int] => m@[i as int].1));
                        assert(decreases_to!(*expr => m@[i as int].1));
                    }
                    let ghost before = patterns@;
                    let ghost rest = ms.subrange(i as int, ms.len() as int);
                    assert(rest[0] == ms[i as int]);
                    assert(rest.subrange(1, rest.len() as int) =~= ms.subrange(i + 1, ms.len() as int));
                    let (op, args) = &m[i];
                    match op_pattern_exec(op.as_str(), args) {
                        Some(p) => {
                            patterns.push(p);
                        },
                        None => {},
                    }
                    let ghost mid = patterns@;
                    assert(mid =~= before + opt_seq(op_pattern(ms[i as int].0, ms[i as int].1)));
                    self.detect_patterns_recursive(args, patterns);
                    i = i + 1;
                    assert(patterns@ + members_seq(ms.subrange(i as int, ms.len() as int)) =~= before
                        + members_seq(rest));
                }
                assert(ms.subrange(m@.len() as int, ms.len() as int) =~= Seq::<(Seq<char>, SpecJson)>::empty());
                assert(patterns@ =~= start + members_seq(ms));
            },
            Json::Array(a) => {
                proof {
                    crate::json::lemma_jsons_view(a@);
                }
                let ghost s = crate::json::jsons_view(a@);
                assert(s.subrange(0, s.len() as int) =~= s);
                assert(patterns@ + items_seq(s) =~= start + items_seq(s));
                let mut i: usize = 0;
                while i < a.len()
                    invariant
                        *expr == Json::Array(*a),
                        0 <= i <= a@.len(),
                        s == crate::json::jsons_view(a@),
                        s.len() == a@.len(),
                        forall|k: int| 0 <= k < a@.len() ==> #[trigger] s[k] == crate::json::json_view(a@[k]),
                        patterns@ + items_seq(s.subrange(i as int, s.len() as int)) == start + items_seq(s),
                    decreases a@.len() - i,
                {
                    proof {
                        assert(decreases_to!(*expr => (*expr)->Array_0));
                        assert(decreases_to!(*a => a@));
                        assert(decreases_to!(a@ => a@[i as int]));
                        assert(decreases_to!(*expr => a@[i as int]));
                    }
                    let ghost before = patterns@;
                    let ghost rest = s.subrange(i as int, s.len() as int);
                    assert(rest[0] == s[i as int]);
                    assert(rest.subrange(1, rest.len() as int) =~= s.subrange(i + 1, s.len() as int));
                    self.detect_patterns_recursive(&a[i], patterns);
                    i = i + 1;
                    assert(patterns@ + items_seq(s.subrange(i as int, s.len() as int)) =~= before + items_seq(rest));
                }
                assert(s.subrange(a@.len() as int, s.len() as int) =~= Seq::<SpecJson>::empty());
                assert(patterns@ =~= start + items_seq(s));
            },
            _ => {
                assert(patterns@ =~= start + detected_seq(expr@));
            },
        }
        proof {
            lemma_detected_seq_set(expr@);
            lemma_add_to_set(start, detected_seq(expr@));
        }
    }

    /// The patterns of a JSON Logic expression, each once, in the order of
    /// their debug names.
    pub fn detect_patterns_from_expression(&self, expr: &Json) -> (r: Vec<PatternCategory>)
        ensures
            r@.to_set() == detected(expr@),
            strictly_ranked(r@),
    {
        let mut raw: Vec<PatternCategory> = Vec::new();
        self.detect_patterns_recursive(expr, &mut raw);
        assert(raw@.to_set() =~= detected(expr@));
        proof {
            lemma_detected_not_custom(expr@);
        }
        let mut sorted: Vec<PatternCategory> = Vec::new();
        let mut i: usize = 0;
        while i < raw.len()
            invariant
                0 <= i <= raw@.len(),
                raw@.to_set() == detected(expr@),
                forall|p: PatternCategory| #[trigger] detected(expr@).contains(p) ==> !(p is Custom),
                strictly_ranked(sorted@),
                sorted@.to_set() == raw@.subrange(0, i as int).to_set(),
            decreases raw@.len() - i,
        {
            let p = copy_pattern(&raw[i]);
            assert(raw@.to_set().contains(raw@[i as int]));
            let rp = p.rank();
            let mut pos: usize = 0;
            while pos < sorted.len() && sorted[pos].rank() < rp
                invariant
                    0 <= pos <= sorted@.len(),
                    rp as nat == pattern_rank(p),
                    strictly_ranked(sorted@),
                    forall|k: int| 0 <= k < pos ==> pattern_rank(#[trigger] sorted@[k]) < rp,
                decreases sorted@.len() - pos,
            {
                pos = pos + 1;
            }
            let ghost old_sorted = sorted@;
            assert(raw@.subrange(0, i + 1) =~= raw@.subrange(0, i as int).push(p));
            proof {
                lemma_push_to_set(raw@.subrange(0, i as int), p);
            }
            if pos < sorted.len() && sorted[pos].rank() == rp {
                proof {
                    assert(sorted@.to_set().contains(sorted@[pos as int]));
                    assert(raw@.subrange(0, i as int).to_set().contains(sorted@[pos as int]));
                    let q = sorted@[pos as int];
                    let k = choose|k: int| 0 <= k < i && raw@.subrange(0, i as int)[k] == q;
                    assert(raw@.to_set().contains(raw@[k]));
                    lemma_rank_injective(p, q);
                    assert(sorted@.to_set().insert(p) =~= sorted@.to_set());
                }
            } else {
                sorted.insert(pos, p);
                proof {
                    lemma_insert_to_set(old_sorted, pos as int, p);
                    assert forall|x: int, y: int| 0 <= x < y < sorted@.len() implies pattern_rank(#[trigger] sorted@[x])
                        < pattern_rank(#[trigger] sorted@[y]) by {
                        if y < pos {
                        } else if y == pos {
                        } else if x < pos {
                            assert(sorted@[y] == old_sorted[y - 1]);
                            if pos < old_sorted.len() {
                                assert(pattern_rank(old_sorted[pos as int]) > rp);
                            }
                        } else if x == pos {
                            assert(sorted@[y] == old_sorted[y - 1]);
                            assert(pattern_rank(old_sorted[pos as int]) >= rp);
                        } else {
                            assert(sorted@[x] == old_sorted[x - 1]);
                            assert(sorted@[y] == old_sorted[y - 1]);
                        }
                    }
                }
            }
            i = i + 1;
        }
        assert(raw@.subrange(0, raw@.len() as int) =~= raw@);
        sorted
    }
}

// ---------------------------------------------------------------------------
// Complexity
// ---------------------------------------------------------------------------

/// Complexity breakdown of an expression
#[derive(Debug, Clone)]
pub struct ComplexityBreakdown {
    pub total_nodes: usize,
    pub max_depth: usize,
    pub variable_count: usize,
    pub operator_count: usize,
    pub condition_count: usize,
    pub loop_count: usize,
    pub cyclomatic_complexity: usize,
}

/// The number of values in an expression, itself included.
pub open spec fn nodes(j: SpecJson) -> nat
    decreases j,
{
    match j {
        SpecJson::Object(m) => 1 + members_nodes(m),
        SpecJson::Array(a) => 1 + items_nodes(a),
        _ => 1,
    }
}

pub open spec fn members_nodes(m: Seq<(Seq<char>, SpecJson)>) -> nat
    decreases m,
{
    if m.len() == 0 {
        0
    } else {
        nodes(m[0].1) + members_nodes(m.subrange(1, m.len() as int))
    }
}

pub open spec fn items_nodes(a: Seq<SpecJson>) -> nat
    decreases a,
{
    if a.len() == 0 {
        0
    } else {
        nodes(a[0]) + items_nodes(a.subrange(1, a.len() as int))
    }
}

/// How deep values nest below an expression (0 for a value holding none).
pub open spec fn height(j: SpecJson) -> nat
    decreases j,
{
    match j {
        SpecJson::Object(m) => members_height(m),
        SpecJson::Array(a) => items_height(a),
        _ => 0,
    }
}

pub open spec fn members_height(m: Seq<(Seq<char>, SpecJson)>) -> nat
    decreases m,
{
    if m.len() == 0 {
        0
    } else {
        let h = 1 + height(m[0].1);
        let r = members_height(m.subrange(1, m.len() as int));
        if h >= r { h } else { r }
    }
}

pub open spec fn items_height(a: Seq<SpecJson>) -> nat
    decreases a,
{
    if a.len() == 0 {
        0
    } else {
        let h = 1 + height(a[0]);
        let r = items_height(a.subrange(1, a.len() as int));
        if h >= r { h } else { r }
    }
}

/// The number of object keys in an expression, at every depth, for which
/// `k` holds.
pub open spec fn key_count(j: SpecJson, k: spec_fn(Seq<char>) -> bool) -> nat
    decreases j,
{
    match j {
        SpecJson::Object(m) => members_keys(m, k),
        SpecJson::Array(a) => items_keys(a, k),
        _ => 0,
    }
}

pub open spec fn members_keys(m: Seq<(Seq<char>, SpecJson)>, k: spec_fn(Seq<char>) -> bool) -> nat
    decreases m,
{
    if m.len() == 0 {
        0
    } else {
        (if k(m[0].0) { 1nat } else { 0nat }) + key_count(m[0].1, k) + members_keys(m.subrange(1, m.len() as int), k)
    }
}

pub open spec fn items_keys(a: Seq<SpecJson>, k: spec_fn(Seq<char>) -> bool) -> nat
    decreases a,
{
    if a.len() == 0 {
        0
    } else {
        key_count(a[0], k) + items_keys(a.subrange(1, a.len() as int), k)
    }
}

pub open spec fn any_key() -> spec_fn(Seq<char>) -> bool {
    |op: Seq<char>| true
}

pub open spec fn var_key() -> spec_fn(Seq<char>) -> bool {
    |op: Seq<char>| op == "var"@
}

pub open spec fn condition_key() -> spec_fn(Seq<char>) -> bool {
    |op: Seq<char>| op == "if"@ || op == "?:"@
}

pub open spec fn is_loop_op(op: Seq<char>) -> bool {
    op == "map"@ || op == "filter"@ || op == "reduce"@ || op == "all"@ || op == "some"@ || op == "none"@
}

pub open spec fn loop_key() -> spec_fn(Seq<char>) -> bool {
    |op: Seq<char>| is_loop_op(op)
}

/// The keys that open a path of their own: conditions, `and`/`or` and loops.
pub open spec fn branch_key() -> spec_fn(Seq<char>) -> bool {
    |op: Seq<char>| op == "if"@ || op == "?:"@ || op == "and"@ || op == "or"@ || is_loop_op(op)
}

/// An expression has more values than keys of any kind.
pub proof fn lemma_keys_below_nodes(j: SpecJson, k: spec_fn(Seq<char>) -> bool)
    ensures
        key_count(j, k) < nodes(j),
        nodes(j) >= 1,
    decreases j,
{
    match j {
        SpecJson::Object(m) => {
            lemma_members_keys_below(m, k);
        },
        SpecJson::Array(a) => {
            lemma_items_keys_below(a, k);
        },
        _ => {},
    }
}

proof fn lemma_members_keys_below(m: Seq<(Seq<char>, SpecJson)>, k: spec_fn(Seq<char>) -> bool)
    ensures
        members_keys(m, k) <= members_nodes(m),
    decreases m,
{
    if m.len() > 0 {
        lemma_keys_below_nodes(m[0].1, k);
        lemma_members_keys_below(m.subrange(1, m.len() as int), k);
    }
}

proof fn lemma_items_keys_below(a: Seq<SpecJson>, k: spec_fn(Seq<char>) -> bool)
    ensures
        items_keys(a, k) <= items_nodes(a),
    decreases a,
{
    if a.len() > 0 {
        lemma_keys_below_nodes(a[0], k);
        lemma_items_keys_below(a.subrange(1, a.len() as int), k);
    }
}

/// What counting the complexity of `j`, met at depth `depth`, adds to the
/// breakdown `b0`, giving `b`.
pub open spec fn counted(b0: ComplexityBreakdown, b: ComplexityBreakdown, j: SpecJson, depth: nat) -> bool {
    &&& b.total_nodes == b0.total_nodes + nodes(j)
    &&& b.max_depth == (if b0.max_depth >= depth + height(j) { b0.max_depth as int } else { (depth + height(j)) as int })
    &&& b.variable_count == b0.variable_count + key_count(j, var_key())
    &&& b.operator_count == b0.operator_count + key_count(j, any_key())
    &&& b.condition_count == b0.condition_count + key_count(j, condition_key())
    &&& b.loop_count == b0.loop_count + key_count(j, loop_key())
    &&& b.cyclomatic_complexity == b0.cyclomatic_complexity + key_count(j, branch_key())
}

/// The counters of `b` stay within its node count, so adding an expression
/// of at most `usize::MAX - total_nodes` values overflows none of them.
pub open spec fn counters_bounded(b: ComplexityBreakdown) -> bool {
    &&& b.variable_count <= b.total_nodes
    &&& b.operator_count <= b.total_nodes
    &&& b.condition_count <= b.total_nodes
    &&& b.loop_count <= b.total_nodes
    &&& b.cyclomatic_complexity <= b.total_nodes + 1
}

pub open spec fn max_int(a: int, b: int) -> int {
    if a >= b { a } else { b }
}

pub open spec fn bit(c: bool) -> nat {
    if c { 1 } else { 0 }
}

/// Count one object key in the breakdown.
fn count_key(op: &str, b: &mut ComplexityBreakdown)
    requires
        old(b).operator_count < usize::MAX,
        old(b).variable_count < usize::MAX,
        old(b).condition_count < usize::MAX,
        old(b).loop_count < usize::MAX,
        old(b).cyclomatic_complexity < usize::MAX,
    ensures
        final(b).total_nodes == old(b).total_nodes,
        final(b).max_depth == old(b).max_depth,
        final(b).operator_count == old(b).operator_count + bit(any_key()(op@)),
        final(b).variable_count == old(b).variable_count + bit(var_key()(op@)),
        final(b).condition_count == old(b).condition_count + bit(condition_key()(op@)),
        final(b).loop_count == old(b).loop_count + bit(loop_key()(op@)),
        final(b).cyclomatic_complexity == old(b).cyclomatic_complexity + bit(branch_key()(op@)),
{
    let o = str_chars(op);
    let c = o.as_slice();
    let is_var = chars_eq_str(c, "var");
    let is_condition = chars_eq_str(c, "if") || chars_eq_str(c, "?:");
    let is_and_or = chars_eq_str(c, "and") || chars_eq_str(c, "or");
    let is_loop = chars_eq_str(c, "map") || chars_eq_str(c, "filter") || chars_eq_str(c, "reduce")
        || chars_eq_str(c, "all") || chars_eq_str(c, "some") || chars_eq_str(c, "none");
    b.operator_count = b.operator_count + 1;
    if is_var {
        b.variable_count = b.variable_count + 1;
    }
    if is_condition {
        b.condition_count = b.condition_count + 1;
    }
    if is_loop {
        b.loop_count = b.loop_count + 1;
    }
    if is_condition || is_and_or || is_loop {
        b.cyclomatic_complexity = b.cyclomatic_complexity + 1;
    }
}

impl PatternAnalyzer {
    /// Add the complexity of `expr`, met at nesting depth `depth`, to the
    /// breakdown.
    #[verifier::spinoff_prover]
    #[verifier::rlimit(40)]
    pub fn count_complexity_recursive(&self, expr: &Json, depth: usize, b: &mut ComplexityBreakdown)
        requires
            old(b).total_nodes + nodes(expr@) <= usize::MAX,
            counters_bounded(*old(b)),
            depth <= old(b).total_nodes,
        ensures
            counted(*old(b), *final(b), expr@, depth as nat),
            counters_bounded(*final(b)),
        decreases expr,
    {
        proof {
            lemma_keys_below_nodes(expr@, any_key());
        }
        b.total_nodes = b.total_nodes + 1;
        if depth > b.max_depth {
            b.max_depth = depth;
        }
        let ghost s0 = *b;
        match expr {
            Json::Object(m) => {
                proof {
                    crate::json::lemma_members_view(m@);
                }
                let ghost ms = crate::json::members_view(m@);
                assert(ms.subrange(0, ms.len() as int) =~= ms);
                let mut i: usize = 0;
                while i < m.len()
                    invariant
                        *expr == Json::Object(*m),
                        expr@ == SpecJson::Object(ms),
                        0 <= i <= m@.len(),
                        ms == crate::json::members_view(m@),
                        ms.len() == m@.len(),
                        forall|k: int| 0 <= k < m@.len() ==> #[trigger] ms[k] == (m@[k].0@, crate::json::json_view(m@[k].1)),
                        s0.total_nodes + members_nodes(ms) <= usize::MAX,
                        s0.max_depth >= depth,
                        b.max_depth >= depth,
                        b.total_nodes + members_nodes(ms.subrange(i as int, ms.len() as int)) == s0.total_nodes + members_nodes(ms),
                        max_int(b.max_depth as int, depth + members_height(ms.subrange(i as int, ms.len() as int))) == max_int(
                            s0.max_depth as int,
                            depth + members_height(ms),
                        ),
                        b.operator_count + members_keys(ms.subrange(i as int, ms.len() as int), any_key()) == s0.operator_count
                            + members_keys(ms, any_key()),
                        b.variable_count + members_keys(ms.subrange(i as int, ms.len() as int), var_key()) == s0.variable_count
                            + members_keys(ms, var_key()),
                        b.condition_count + members_keys(ms.subrange(i as int, ms.len() as int), condition_key())
                            == s0.condition_count + members_keys(ms, condition_key()),
                        b.loop_count + members_keys(ms.subrange(i as int, ms.len() as int), loop_key()) == s0.loop_count
                            + members_keys(ms, loop_key()),
                        b.cyclomatic_complexity + members_keys(ms.subrange(i as int, ms.len() as int), branch_key())
                            == s0.cyclomatic_complexity + members_keys(ms, branch_key()),
                        b.operator_count < b.total_nodes,
                        b.variable_count < b.total_nodes,
                        b.condition_count < b.total_nodes,
                        b.loop_count < b.total_nodes,
                        b.cyclomatic_complexity <= b.total_nodes,
                        depth < b.total_nodes,
                    decreases m@.len() - i,
                {
                    proof {
                        assert(decreases_to!(*expr => (*expr)->Object_0));
                        assert(decreases_to!(*m => m@));
                        assert(decreases_to!(m@ => m@[i as int]));
                        assert(decreases_to!(m@[i as int] => m@[i as int].1));
                        assert(decreases_to!(*expr => m@[i as int].1));
                    }
                    let ghost rest = ms.subrange(i as int, ms.len() as int);
                    assert(rest[0] == ms[i as int]);
                    assert(rest.subrange(1, rest.len() as int) =~= ms.subrange(i + 1, ms.len() as int));
                    let (op, args) = &m[i];
                    proof {
                        lemma_keys_below_nodes(args@, any_key());
                        lemma_keys_below_nodes(args@, var_key());
                        lemma_keys_below_nodes(args@, condition_key());
                        lemma_keys_below_nodes(args@, loop_key());
                        lemma_keys_below_nodes(args@, branch_key());
                    }
                    count_key(op.as_str(), b);
                    self.count_complexity_recursive(args, depth + 1, b);
                    i = i + 1;
                }
                assert(ms.subrange(m@.len() as int, ms.len() as int) =~= Seq::<(Seq<char>, SpecJson)>::empty());
                assert(nodes(expr@) == 1 + members_nodes(ms));
                assert(height(expr@) == members_height(ms));
                assert(key_count(expr@, any_key()) == members_keys(ms, any_key()));
                assert(key_count(expr@, var_key()) == members_keys(ms, var_key()));
                assert(key_count(expr@, condition_key()) == members_keys(ms, condition_key()));
                assert(key_count(expr@, loop_key()) == members_keys(ms, loop_key()));
                assert(key_count(expr@, branch_key()) == members_keys(ms, branch_key()));
            },
            Json::Array(a) => {
                proof {
                    crate::json::lemma_jsons_view(a@);
                }
                let ghost s = crate::json::jsons_view(a@);
                assert(s.subrange(0, s.len() as int) =~= s);
                let mut i: usize = 0;
                while i < a.len()
                    invariant
                        *expr == Json::Array(*a),
                        expr@ == SpecJson::Array(s),
                        0 <= i <= a@.len(),
                        s == crate::json::jsons_view(a@),
                        s.len() == a@.len(),
                        forall|k: int| 0 <= k < a@.len() ==> #[trigger] s[k] == crate::json::json_view(a@[k]),
                        s0.total_nodes + items_nodes(s) <= usize::MAX,
                        s0.max_depth >= depth,
                        b.max_depth >= depth,
                        b.total_nodes + items_nodes(s.subrange(i as int, s.len() as int)) == s0.total_nodes + items_nodes(s),
                        max_int(b.max_depth as int, depth + items_height(s.subrange(i as int, s.len() as int))) == max_int(
                            s0.max_depth as int,
                            depth + items_height(s),
                        ),
                        b.operator_count + items_keys(s.subrange(i as int, s.len() as int), any_key()) == s0.operator_count
                            + items_keys(s, any_key()),
                        b.variable_count + items_keys(s.subrange(i as int, s.len() as int), var_key()) == s0.variable_count
                            + items_keys(s, var_key()),
                        b.condition_count + items_keys(s.subrange(i as int, s.len() as int), condition_key())
                            == s0.condition_count + items_keys(s, condition_key()),
                        b.loop_count + items_keys(s.subrange(i as int, s.len() as int), loop_key()) == s0.loop_count
                            + items_keys(s, loop_key()),
                        b.cyclomatic_complexity + items_keys(s.subrange(i as int, s.len() as int), branch_key())
                            == s0.cyclomatic_complexity + items_keys(s, branch_key()),
                        b.operator_count < b.total_nodes,
                        b.variable_count < b.total_nodes,
                        b.condition_count < b.total_nodes,
                        b.loop_count < b.total_nodes,
                        b.cyclomatic_complexity <= b.total_nodes,
                        depth < b.total_nodes,
                    decreases a@.len() - i,
                {
                    proof {
                        assert(decreases_to!(*expr => (*expr)->Array_0));
                        assert(decreases_to!(*a => a@));
                        assert(decreases_to!(a@ => a@[i as int]));
                        assert(decreases_to!(*expr => a@[i as int]));
                    }
                    let ghost rest = s.subrange(i as int, s.len() as int);
                    assert(rest[0] == s[i as int]);
                    assert(rest.subrange(1, rest.len() as int) =~= s.subrange(i + 1, s.len() as int));
                    proof {
                        lemma_keys_below_nodes(a@[i as int]@, any_key());
                        lemma_keys_below_nodes(a@[i as int]@, var_key());
                        lemma_keys_below_nodes(a@[i as int]@, condition_key());
                        lemma_keys_below_nodes(a@[i as int]@, loop_key());
                        lemma_keys_below_nodes(a@[i as int]@, branch_key());
                    }
                    self.count_complexity_recursive(&a[i], depth + 1, b);
                    i = i + 1;
                }
                assert(s.subrange(a@.len() as int, s.len() as int) =~= Seq::<SpecJson>::empty());
                assert(nodes(expr@) == 1 + items_nodes(s));
                assert(height(expr@) == items_height(s));
                assert(key_count(expr@, any_key()) == items_keys(s, any_key()));
                assert(key_count(expr@, var_key()) == items_keys(s, var_key()));
                assert(key_count(expr@, condition_key()) == items_keys(s, condition_key()));
                assert(key_count(expr@, loop_key()) == items_keys(s, loop_key()));
                assert(key_count(expr@, branch_key()) == items_keys(s, branch_key()));
            },
            _ => {},
        }
    }

    /// The complexity breakdown of an expression; the cyclomatic complexity
    /// starts at 1.
    pub fn analyze_complexity(&self, expr: &Json) -> (c: ComplexityBreakdown)
        requires
            nodes(expr@) < usize::MAX,
        ensures
            c.total_nodes == nodes(expr@),
            c.max_depth == height(expr@),
            c.variable_count == key_count(expr@, var_key()),
            c.operator_count == key_count(expr@, any_key()),
            c.condition_count == key_count(expr@, condition_key()),
            c.loop_count == key_count(expr@, loop_key()),
            c.cyclomatic_complexity == 1 + key_count(expr@, branch_key()),
    {
        let mut breakdown = ComplexityBreakdown {
            total_nodes: 0,
            max_depth: 0,
            variable_count: 0,
            operator_count: 0,
            condition_count: 0,
            loop_count: 0,
            cyclomatic_complexity: 1,
        };
        self.count_complexity_recursive(expr, 0, &mut breakdown);
        breakdown
    }
}

// ---------------------------------------------------------------------------
// Rules in words
// ---------------------------------------------------------------------------

/// Minimal rule representation for pattern analysis
#[derive(Debug)]
pub struct Rule {
    pub id: String,
    pub expression: Json,
    pub output_attribute: String,
    pub dependencies: Vec<String>,
}

/// How a pattern is named in a summary (`None` for one that is not).
pub open spec fn pattern_description(p: PatternCategory) -> Option<Seq<char>> {
    match p {
        PatternCategory::Calculation(c) => match c {
            CalculationType::Multiplication => Some("multiplication"@),
            CalculationType::Division => Some("division"@),
            CalculationType::Addition => Some("addition"@),
            CalculationType::Percentage => Some("percentage calculation"@),
            CalculationType::Compound => Some("compound calculation"@),
            _ => None,
        },
        PatternCategory::Conditional(c) => match c {
            ConditionalType::ThresholdBased => Some("threshold comparison"@),
            ConditionalType::Tiered => Some("tiered logic"@),
            ConditionalType::MultiCondition => Some("multiple conditions"@),
            _ => None,
        },
        PatternCategory::Aggregation(a) => match a {
            AggregationType::Sum => Some("summation"@),
            AggregationType::Min => Some("minimum selection"@),
            AggregationType::Max => Some("maximum selection"@),
            _ => None,
        },
        _ => None,
    }
}

/// The names of those of the first `k` patterns that have one.
pub open spec fn descriptions(ps: Seq<PatternCategory>, k: int) -> Seq<Seq<char>>
    decreases k,
{
    if k <= 0 {
        seq![]
    } else {
        descriptions(ps, k - 1) + match pattern_description(ps[k - 1]) {
            Some(d) => seq![d],
            None => seq![],
        }
    }
}

/// The words for a list of patterns: the names of the first two, where
/// they have one, joined by " and ".
pub open spec fn patterns_text(ps: Seq<PatternCategory>) -> Seq<char> {
    join(descriptions(ps, if ps.len() < 2 { ps.len() as int } else { 2 }), " and "@)
}

/// The "using ..." part of a summary: at most three dependencies, and how
/// many more there are.
pub open spec fn using_text(deps: Seq<Seq<char>>) -> Seq<char> {
    if deps.len() > 3 {
        "using "@ + join(deps.take(3), ", "@) + " and "@ + decimal_nat((deps.len() - 3) as nat) + " more inputs"@
    } else {
        "using "@ + join(deps, ", "@)
    }
}

/// A natural language summary of a rule.
pub open spec fn summary_text(output: Seq<char>, deps: Seq<Seq<char>>, ps: Seq<PatternCategory>) -> Seq<char> {
    let first = seq!["Computes '"@ + output + "'"@];
    let with_deps = if deps.len() > 0 { first.push(using_text(deps)) } else { first };
    let all = if patterns_text(ps).len() > 0 { with_deps.push("via "@ + patterns_text(ps)) } else { with_deps };
    join(all, " "@)
}

fn push_usize(v: &mut Vec<char>, n: usize)
    ensures
        final(v)@ == old(v)@ + decimal_nat(n as nat),
{
    let digits = nat_to_chars(n as u64);
    push_chars(v, digits.as_slice());
}

fn description_of(p: &PatternCategory) -> (r: Option<&'static str>)
    ensures
        match r {
            Some(d) => pattern_description(*p) == Some(d@),
            None => pattern_description(*p) is None,
        },
{
    match p {
        PatternCategory::Calculation(c) => match c {
            CalculationType::Multiplication => Some("multiplication"),
            CalculationType::Division => Some("division"),
            CalculationType::Addition => Some("addition"),
            CalculationType::Percentage => Some("percentage calculation"),
            CalculationType::Compound => Some("compound calculation"),
            _ => None,
        },
        PatternCategory::Conditional(c) => match c {
            ConditionalType::ThresholdBased => Some("threshold comparison"),
            ConditionalType::Tiered => Some("tiered logic"),
            ConditionalType::MultiCondition => Some("multiple conditions"),
            _ => None,
        },
        PatternCategory::Aggregation(a) => match a {
            AggregationType::Sum => Some("summation"),
            AggregationType::Min => Some("minimum selection"),
            AggregationType::Max => Some("maximum selection"),
            _ => None,
        },
        _ => None,
    }
}

impl PatternAnalyzer {
    /// The words for a list of patterns (see [`patterns_text`]).
    pub fn describe_patterns(&self, patterns: &Vec<PatternCategory>) -> (r: String)
        ensures
            r@ == patterns_text(patterns@),
    {
        let n: usize = if patterns.len() < 2 { patterns.len() } else { 2 };
        let mut descs: Vec<String> = Vec::new();
        let mut i: usize = 0;
        while i < n
            invariant
                0 <= i <= n <= patterns@.len(),
                n == (if patterns@.len() < 2 { patterns@.len() as int } else { 2 }),
                strings_view(descs@) == descriptions(patterns@, i as int),
            decreases n - i,
        {
            match description_of(&patterns[i]) {
                Some(d) => {
                    let ghost before = descs@;
                    descs.push(d.to_owned());
                    assert(strings_view(descs@) =~= strings_view(before).push(d@));
                },
                None => {},
            }
            i = i + 1;
            assert(strings_view(descs@) =~= descriptions(patterns@, i as int));
        }
        let mut out: Vec<char> = Vec::new();
        push_joined(&mut out, &descs, " and ");
        assert(out@ =~= patterns_text(patterns@));
        string_from_chars(out.as_slice())
    }

    /// A natural language summary of a rule (see [`summary_text`]).
    pub fn generate_natural_summary(&self, rule: &Rule, patterns: &Vec<PatternCategory>) -> (r: String)
        ensures
            r@ == summary_text(rule.output_attribute@, strings_view(rule.dependencies@), patterns@),
    {
        let ghost deps = strings_view(rule.dependencies@);
        let mut parts: Vec<String> = Vec::new();
        let mut first: Vec<char> = Vec::new();
        push_str(&mut first, "Computes '");
        push_str(&mut first, rule.output_attribute.as_str());
        push_str(&mut first, "'");
        parts.push(string_from_chars(first.as_slice()));
        assert(strings_view(parts@) =~= seq!["Computes '"@ + rule.output_attribute@ + "'"@]);
        let nd = rule.dependencies.len();
        if nd > 0 {
            let mut using: Vec<char> = Vec::new();
            push_str(&mut using, "using ");
            if nd > 3 {
                let mut three: Vec<String> = Vec::new();
                three.push(rule.dependencies[0].clone());
                three.push(rule.dependencies[1].clone());
                three.push(rule.dependencies[2].clone());
                assert(strings_view(three@) =~= deps.take(3));
                push_joined(&mut using, &three, ", ");
                push_str(&mut using, " and ");
                push_usize(&mut using, nd - 3);
                push_str(&mut using, " more inputs");
            } else {
                push_joined(&mut using, &rule.dependencies, ", ");
            }
            assert(using@ =~= using_text(deps));
            let ghost before = parts@;
            parts.push(string_from_chars(using.as_slice()));
            assert(strings_view(parts@) =~= strings_view(before).push(using_text(deps)));
        }
        let desc = self.describe_patterns(patterns);
        let desc_chars = str_chars(desc.as_str());
        if desc_chars.len() > 0 {
            let mut via: Vec<char> = Vec::new();
            push_str(&mut via, "via ");
            push_str(&mut via, desc.as_str());
            let ghost before = parts@;
            parts.push(string_from_chars(via.as_slice()));
            assert(strings_view(parts@) =~= strings_view(before).push("via "@ + patterns_text(patterns@)));
        }
        let mut out: Vec<char> = Vec::new();
        push_joined(&mut out, &parts, " ");
        assert(out@ =~= summary_text(rule.output_attribute@, deps, patterns@));
        string_from_chars(out.as_slice())
    }
}

/// Priority of a suggestion
#[derive(Debug, Clone, Copy, PartialEq, Eq, Structural)]
pub enum SuggestionPriority {
    High,
    Medium,
    Low,
    Info,
}

/// Kind of a suggestion
#[derive(Debug, Clone, Copy, PartialEq, Eq, Structural)]
pub enum SuggestionCategory {
    Performance,
    Maintainability,
    Correctness,
    Simplification,
    Consolidation,
}

/// An optimization suggestion
#[derive(Debug, Clone)]
pub struct Suggestion {
    pub priority: SuggestionPriority,
    pub category: SuggestionCategory,
    pub title: String,
    pub description: String,
    pub estimated_impact: String,
}

/// Model of a [`Suggestion`].
pub struct SpecSuggestion {
    pub priority: SuggestionPriority,
    pub category: SuggestionCategory,
    pub title: Seq<char>,
    pub description: Seq<char>,
    pub estimated_impact: Seq<char>,
}

impl View for Suggestion {
    type V = SpecSuggestion;

    open spec fn view(&self) -> SpecSuggestion {
        SpecSuggestion {
            priority: self.priority,
            category: self.category,
            title: self.title@,
            description: self.description@,
            estimated_impact: self.estimated_impact@,
        }
    }
}

pub open spec fn suggestions_view(v: Seq<Suggestion>) -> Seq<SpecSuggestion> {
    v.map_values(|s: Suggestion| s@)
}

pub open spec fn when<A>(c: bool, x: A) -> Seq<A> {
    if c { seq![x] } else { seq![] }
}

/// The suggestions for a rule with `deps` dependencies, these patterns and
/// this complexity: split a complex rule, flatten deep nesting, reduce many
/// dependencies, and replace many tiers by a lookup table.
pub open spec fn suggestions_for(deps: nat, ps: Seq<PatternCategory>, c: ComplexityBreakdown) -> Seq<SpecSuggestion> {
    when(
        c.cyclomatic_complexity > 10,
        SpecSuggestion {
            priority: SuggestionPriority::High,
            category: SuggestionCategory::Maintainability,
            title: "High complexity detected"@,
            description: "This rule has cyclomatic complexity of "@ + decimal_nat(c.cyclomatic_complexity as nat)
                + ". Consider breaking it into smaller rules."@,
            estimated_impact: "Improves maintainability and testability"@,
        },
    ) + when(
        c.max_depth > 5,
        SpecSuggestion {
            priority: SuggestionPriority::Medium,
            category: SuggestionCategory::Simplification,
            title: "Deep nesting"@,
            description: "Expression has "@ + decimal_nat(c.max_depth as nat) + " levels of nesting. Flatten where possible."@,
            estimated_impact: "Easier to understand and debug"@,
        },
    ) + when(
        deps > 10,
        SpecSuggestion {
            priority: SuggestionPriority::Medium,
            category: SuggestionCategory::Maintainability,
            title: "Many dependencies"@,
            description: "This rule depends on "@ + decimal_nat(deps) + " other values. Consider intermediate calculations."@,
            estimated_impact: "Reduces coupling and improves testability"@,
        },
    ) + when(
        ps.contains(cond(ConditionalType::Tiered)) && c.condition_count > 5,
        SpecSuggestion {
            priority: SuggestionPriority::Low,
            category: SuggestionCategory::Performance,
            title: "Consider lookup table"@,
            description: "Multiple tiers could be replaced with a lookup table for clarity."@,
            estimated_impact: "Cleaner configuration, easier updates"@,
        },
    )
}

/// Interesting facts about a rule with these dependencies, patterns and
/// complexity.
pub open spec fn facts_for(deps: nat, ps: Seq<PatternCategory>, c: ComplexityBreakdown) -> Seq<Seq<char>> {
    when(c.total_nodes == 1, "Simplest possible rule - single value or variable"@) + when(
        c.variable_count == 0,
        "Constant rule - returns the same value every time"@,
    ) + when(c.loop_count > 0, "Processes arrays with "@ + decimal_nat(c.loop_count as nat) + " iteration(s)"@)
        + when(ps.contains(calc(CalculationType::Percentage)), "Applies percentage-based calculation"@) + when(
        ps.contains(cond(ConditionalType::Tiered)),
        "Uses tiered logic with "@ + decimal_nat(c.condition_count as nat) + " conditions"@,
    ) + when(deps == 0, "Input rule - no dependencies on other rules"@)
}

/// Whether `ps` holds the pattern of place `rank` (a place no custom pattern
/// has).
fn has_pattern(ps: &Vec<PatternCategory>, rank: u8, target: Ghost<PatternCategory>) -> (r: bool)
    requires
        pattern_rank(target@) == rank,
        !(target@ is Custom),
        rank != 23,
    ensures
        r == ps@.contains(target@),
{
    let mut i: usize = 0;
    while i < ps.len()
        invariant
            0 <= i <= ps@.len(),
            pattern_rank(target@) == rank,
            !(target@ is Custom),
            rank != 23,
            forall|k: int| 0 <= k < i ==> ps@[k] != target@,
        decreases ps@.len() - i,
    {
        if ps[i].rank() == rank {
            proof {
                if ps@[i as int] is Custom {
                    assert(pattern_rank(ps@[i as int]) == 23);
                } else {
                    lemma_rank_injective(ps@[i as int], target@);
                }
            }
            return true;
        }
        i = i + 1;
    }
    false
}

fn suggestion(
    priority: SuggestionPriority,
    category: SuggestionCategory,
    title: &str,
    description: Vec<char>,
    impact: &str,
) -> (s: Suggestion)
    ensures
        s@ == (SpecSuggestion {
            priority,
            category,
            title: title@,
            description: description@,
            estimated_impact: impact@,
        }),
{
    Suggestion {
        priority,
        category,
        title: title.to_owned(),
        description: string_from_chars(description.as_slice()),
        estimated_impact: impact.to_owned(),
    }
}

impl PatternAnalyzer {
    /// Optimization suggestions for a rule (see [`suggestions_for`]).
    pub fn generate_suggestions(
        &self,
        rule: &Rule,
        patterns: &Vec<PatternCategory>,
        complexity: &ComplexityBreakdown,
    ) -> (r: Vec<Suggestion>)
        ensures
            suggestions_view(r@) == suggestions_for(rule.dependencies@.len(), patterns@, *complexity),
    {
        let mut out: Vec<Suggestion> = Vec::new();
        if complexity.cyclomatic_complexity > 10 {
            let mut d: Vec<char> = Vec::new();
            push_str(&mut d, "This rule has cyclomatic complexity of ");
            push_usize(&mut d, complexity.cyclomatic_complexity);
            push_str(&mut d, ". Consider breaking it into smaller rules.");
            out.push(
                suggestion(
                    SuggestionPriority::High,
                    SuggestionCategory::Maintainability,
                    "High complexity detected",
                    d,
                    "Improves maintainability and testability",
                ),
            );
        }
        if complexity.max_depth > 5 {
            let mut d: Vec<char> = Vec::new();
            push_str(&mut d, "Expression has ");
            push_usize(&mut d, complexity.max_depth);
            push_str(&mut d, " levels of nesting. Flatten where possible.");
            out.push(
                suggestion(
                    SuggestionPriority::Medium,
                    SuggestionCategory::Simplification,
                    "Deep nesting",
                    d,
                    "Easier to understand and debug",
                ),
            );
        }
        let nd = rule.dependencies.len();
        if nd > 10 {
            let mut d: Vec<char> = Vec::new();
            push_str(&mut d, "This rule depends on ");
            push_usize(&mut d, nd);
            push_str(&mut d, " other values. Consider intermediate calculations.");
            out.push(
                suggestion(
                    SuggestionPriority::Medium,
                    SuggestionCategory::Maintainability,
                    "Many dependencies",
                    d,
                    "Reduces coupling and improves testability",
                ),
            );
        }
        let tiered = has_pattern(patterns, 22, Ghost(cond(ConditionalType::Tiered)));
        if tiered && complexity.condition_count > 5 {
            let mut d: Vec<char> = Vec::new();
            push_str(&mut d, "Multiple tiers could be replaced with a lookup table for clarity.");
            out.push(
                suggestion(
                    SuggestionPriority::Low,
                    SuggestionCategory::Performance,
                    "Consider lookup table",
                    d,
                    "Cleaner configuration, easier updates",
                ),
            );
        }
        assert(suggestions_view(out@) =~= suggestions_for(rule.dependencies@.len(), patterns@, *complexity));
        out
    }

    /// Interesting facts about a rule (see [`facts_for`]).
    pub fn generate_rule_facts(
        &self,
        rule: &Rule,
        patterns: &Vec<PatternCategory>,
        complexity: &ComplexityBreakdown,
    ) -> (r: Vec<String>)
        ensures
            strings_view(r@) == facts_for(rule.dependencies@.len(), patterns@, *complexity),
    {
        let mut facts: Vec<String> = Vec::new();
        if complexity.total_nodes == 1 {
            facts.push("Simplest possible rule - single value or variable".to_owned());
        }
        if complexity.variable_count == 0 {
            facts.push("Constant rule - returns the same value every time".to_owned());
        }
        if complexity.loop_count > 0 {
            let mut d: Vec<char> = Vec::new();
            push_str(&mut d, "Processes arrays with ");
            push_usize(&mut d, complexity.loop_count);
            push_str(&mut d, " iteration(s)");
            facts.push(string_from_chars(d.as_slice()));
        }
        if has_pattern(patterns, 14, Ghost(calc(CalculationType::Percentage))) {
            facts.push("Applies percentage-based calculation".to_owned());
        }
        if has_pattern(patterns, 22, Ghost(cond(ConditionalType::Tiered))) {
            let mut d: Vec<char> = Vec::new();
            push_str(&mut d, "Uses tiered logic with ");
            push_usize(&mut d, complexity.condition_count);
            push_str(&mut d, " conditions");
            facts.push(string_from_chars(d.as_slice()));
        }
        if rule.dependencies.len() == 0 {
            facts.push("Input rule - no dependencies on other rules".to_owned());
        }
        assert(strings_view(facts@) =~= facts_for(rule.dependencies@.len(), patterns@, *complexity));
        facts
    }
}

// ---------------------------------------------------------------------------
// Semantic tags
// ---------------------------------------------------------------------------

/// Whether `text` contains one of the keywords.
pub open spec fn mentions_any(text: Seq<char>, keywords: Seq<Seq<char>>) -> bool {
    exists|k: int| 0 <= k < keywords.len() && contains_seq(text, #[trigger] keywords[k])
}

/// Where a rule identifier is cut into words: at `_`, `-` and uppercase
/// letters (which are dropped).
pub open spec fn is_word_break(c: char) -> bool {
    c == '_' || c == '-' || unicode_uppercase(c)
}

/// The pieces of `s` between word breaks, empty ones included (as
/// `str::split` gives them).
pub open spec fn split_words(s: Seq<char>) -> Seq<Seq<char>>
    decreases s.len(),
{
    if s.len() == 0 {
        seq![seq![]]
    } else {
        let prev = split_words(s.drop_last());
        if is_word_break(s.last()) {
            prev.push(seq![])
        } else {
            prev.update(prev.len() - 1, prev.last().push(s.last()))
        }
    }
}

/// Add one word of the identifier to the tags: a word of more than two
/// bytes, lower-cased, when it takes more than three bytes and is not a tag
/// yet.
pub open spec fn add_word(tags: Seq<Seq<char>>, w: Seq<char>) -> Seq<Seq<char>> {
    let l = unicode_lowercase(w);
    if w.len() > 0 && byte_len(w) > 2 && !tags.contains(l) && byte_len(l) > 3 {
        tags.push(l)
    } else {
        tags
    }
}

pub open spec fn add_words(tags: Seq<Seq<char>>, ws: Seq<Seq<char>>) -> Seq<Seq<char>>
    decreases ws.len(),
{
    if ws.len() == 0 {
        tags
    } else {
        add_word(add_words(tags, ws.drop_last()), ws.last())
    }
}

/// The tags of the keyword categories the identifier and output mention.
pub open spec fn category_tags(combined: Seq<char>, kw: KeywordPatterns) -> Seq<Seq<char>> {
    when(mentions_any(combined, strs_view(kw.pricing@)), "pricing"@) + when(
        mentions_any(combined, strs_view(kw.risk@)),
        "risk-assessment"@,
    ) + when(mentions_any(combined, strs_view(kw.customer@)), "customer-related"@) + when(
        mentions_any(combined, strs_view(kw.discount@)),
        "discount-promotion"@,
    ) + when(mentions_any(combined, strs_view(kw.validation@)), "validation"@) + when(
        mentions_any(combined, strs_view(kw.eligibility@)),
        "eligibility"@,
    ) + when(mentions_any(combined, strs_view(kw.coverage@)), "coverage"@)
}

/// The semantic tags of a rule: the categories its identifier and output
/// mention, then the words of its identifier, at most five in all.
pub open spec fn semantic_tags(id: Seq<char>, output: Seq<char>, kw: KeywordPatterns) -> Seq<Seq<char>> {
    let combined = unicode_lowercase(id + " "@ + output);
    let all = add_words(category_tags(combined, kw), split_words(id));
    all.take(if all.len() < 5 { all.len() as int } else { 5 })
}

/// Whether `text` contains one of the keywords.
pub fn mentions_any_exec(text: &[char], keywords: &Vec<&'static str>) -> (r: bool)
    ensures
        r == mentions_any(text@, strs_view(keywords@)),
{
    let mut i: usize = 0;
    while i < keywords.len()
        invariant
            0 <= i <= keywords@.len(),
            forall|k: int| 0 <= k < i ==> !contains_seq(text@, #[trigger] strs_view(keywords@)[k]),
        decreases keywords@.len() - i,
    {
        if contains_str(text, keywords[i]) {
            assert(strs_view(keywords@)[i as int] == keywords@[i as int]@);
            return true;
        }
        i = i + 1;
    }
    false
}

fn push_tag_if(tags: &mut Vec<String>, c: bool, tag: &str)
    ensures
        strings_view(final(tags)@) == strings_view(old(tags)@) + when(c, tag@),
{
    if c {
        let ghost before = tags@;
        tags.push(tag.to_owned());
        assert(strings_view(tags@) =~= strings_view(before) + when(c, tag@));
    } else {
        assert(strings_view(tags@) =~= strings_view(tags@) + when(c, tag@));
    }
}

fn tags_contain(tags: &Vec<String>, w: &[char]) -> (r: bool)
    ensures
        r == strings_view(tags@).contains(w@),
{
    let mut i: usize = 0;
    while i < tags.len()
        invariant
            0 <= i <= tags@.len(),
            forall|k: int| 0 <= k < i ==> #[trigger] strings_view(tags@)[k] != w@,
        decreases tags@.len() - i,
    {
        let t = str_chars(tags[i].as_str());
        if chars_equal(t.as_slice(), w) {
            assert(strings_view(tags@)[i as int] == w@);
            return true;
        }
        i = i + 1;
    }
    false
}

impl PatternAnalyzer {
    /// Extract semantic tags from a rule's identifier and output (see
    /// [`semantic_tags`]).
    pub fn extract_semantic_tags(&self, rule_id: &str, output_attr: &str) -> (r: Vec<String>)
        ensures
            strings_view(r@) == semantic_tags(rule_id@, output_attr@, self.keywords()),
    {
        let mut joined: Vec<char> = Vec::new();
        push_str(&mut joined, rule_id);
        push_str(&mut joined, " ");
        push_str(&mut joined, output_attr);
        let joined_s = string_from_chars(joined.as_slice());
        let lower_s = str_to_lowercase(joined_s.as_str());
        let lower = str_chars(lower_s.as_str());
        let l = lower.as_slice();
        let mut tags: Vec<String> = Vec::new();
        push_tag_if(&mut tags, mentions_any_exec(l, &self.keywords.pricing), "pricing");
        push_tag_if(&mut tags, mentions_any_exec(l, &self.keywords.risk), "risk-assessment");
        push_tag_if(&mut tags, mentions_any_exec(l, &self.keywords.customer), "customer-related");
        push_tag_if(&mut tags, mentions_any_exec(l, &self.keywords.discount), "discount-promotion");
        push_tag_if(&mut tags, mentions_any_exec(l, &self.keywords.validation), "validation");
        push_tag_if(&mut tags, mentions_any_exec(l, &self.keywords.eligibility), "eligibility");
        push_tag_if(&mut tags, mentions_any_exec(l, &self.keywords.coverage), "coverage");
        let ghost base = strings_view(tags@);
        assert(base =~= category_tags(unicode_lowercase(rule_id@ + " "@ + output_attr@), self.keywords()));
        // The words of the identifier.
        let id = str_chars(rule_id);
        let mut words: Vec<Vec<char>> = Vec::new();
        let mut cur: Vec<char> = Vec::new();
        let mut i: usize = 0;
        while i < id.len()
            invariant
                0 <= i <= id@.len(),
                id@ == rule_id@,
                words@.map_values(|w: Vec<char>| w@).push(cur@) == split_words(id@.subrange(0, i as int)),
            decreases id@.len() - i,
        {
            let c = id[i];
            let ghost prefix = id@.subrange(0, i + 1);
            assert(prefix.drop_last() =~= id@.subrange(0, i as int));
            assert(prefix.last() == c);
            let ghost prev = words@.map_values(|w: Vec<char>| w@).push(cur@);
            if c == '_' || c == '-' || char_is_uppercase(c) {
                let done = cur;
                cur = Vec::new();
                words.push(done);
                assert(words@.map_values(|w: Vec<char>| w@).push(cur@) =~= prev.push(seq![]));
            } else {
                cur.push(c);
                assert(words@.map_values(|w: Vec<char>| w@).push(cur@) =~= prev.update(
                    prev.len() - 1,
                    prev.last().push(c),
                ));
            }
            i = i + 1;
        }
        words.push(cur);
        assert(id@.subrange(0, id@.len() as int) =~= id@);
        let ghost ws = words@.map_values(|w: Vec<char>| w@);
        assert(ws == split_words(rule_id@));
        let mut k: usize = 0;
        while k < words.len()
            invariant
                0 <= k <= words@.len(),
                ws == words@.map_values(|w: Vec<char>| w@),
                strings_view(tags@) == add_words(base, ws.subrange(0, k as int)),
            decreases words@.len() - k,
        {
            let w = &words[k];
            let ghost before = strings_view(tags@);
            assert(ws.subrange(0, k + 1).drop_last() =~= ws.subrange(0, k as int));
            assert(ws.subrange(0, k + 1).last() == w@);
            if w.len() > 0 && bytes_exceed(w.as_slice(), 2) {
                let ws_s = string_from_chars(w.as_slice());
                let wl_s = str_to_lowercase(ws_s.as_str());
                let wl = str_chars(wl_s.as_str());
                if !tags_contain(&tags, wl.as_slice()) && bytes_exceed(wl.as_slice(), 3) {
                    tags.push(wl_s);
                    assert(strings_view(tags@) =~= before.push(unicode_lowercase(w@)));
                }
            }
            k = k + 1;
        }
        assert(ws.subrange(0, words@.len() as int) =~= ws);
        let ghost all = strings_view(tags@);
        let n: usize = if tags.len() < 5 { tags.len() } else { 5 };
        tags.truncate(n);
        assert(strings_view(tags@) =~= all.take(n as int));
        tags
    }
}

// ---------------------------------------------------------------------------
// Semantic groups
// ---------------------------------------------------------------------------

/// The keywords of semantic group `g`: pricing (0), risk (1), discounts
/// (2), eligibility (3) and coverage (4).
pub open spec fn group_keywords(k: KeywordPatterns, g: int) -> Seq<Seq<char>> {
    if g == 0 {
        strs_view(k.pricing@)
    } else if g == 1 {
        strs_view(k.risk@)
    } else if g == 2 {
        strs_view(k.discount@)
    } else if g == 3 {
        strs_view(k.eligibility@)
    } else {
        strs_view(k.coverage@)
    }
}

/// Whether a rule, by its identifier and output path, belongs to group `g`:
/// its lower-cased identifier and output, a space apart, mention one of the
/// group's keywords.
pub open spec fn in_group(k: KeywordPatterns, g: int, id: Seq<char>, output: Seq<char>) -> bool {
    mentions_any(unicode_lowercase(id + " "@ + output), group_keywords(k, g))
}

/// Whether one of the rules belongs to group `g`.
pub open spec fn group_has_member(k: KeywordPatterns, g: int, rules: Seq<(String, String)>) -> bool {
    exists|i: int| 0 <= i < rules.len() && in_group(k, g, (#[trigger] rules[i]).0@, rules[i].1@)
}

impl PatternAnalyzer {
    fn group_keyword_list(&self, g: usize) -> (r: &Vec<&'static str>)
        ensures
            strs_view(r@) == group_keywords(self.keywords(), g as int),
    {
        if g == 0 {
            &self.keywords.pricing
        } else if g == 1 {
            &self.keywords.risk
        } else if g == 2 {
            &self.keywords.discount
        } else if g == 3 {
            &self.keywords.eligibility
        } else {
            &self.keywords.coverage
        }
    }

    /// The members of the semantic groups among the rules, given as
    /// (identifier, output path): for each group that has members, in the
    /// order of the groups, its number and the identifiers and the output
    /// paths of its members, each sorted and without repeats.
    pub fn semantic_group_members(&self, rules: &Vec<(String, String)>) -> (r: Vec<(usize, Vec<String>, Vec<String>)>)
        ensures
            forall|a: int, b: int| 0 <= a < b < r@.len() ==> r@[a].0 < r@[b].0,
            forall|e: int| 0 <= e < r@.len() ==> (#[trigger] r@[e]).0 < 5,
            forall|g: int|
                0 <= g < 5 ==> (group_has_member(self.keywords(), g, rules@) <==> exists|e: int|
                    0 <= e < r@.len() && (#[trigger] r@[e]).0 == g),
            forall|e: int|
                0 <= e < r@.len() ==> {
                    &&& sorted_unique(strings_view((#[trigger] r@[e]).1@))
                    &&& sorted_unique(strings_view(r@[e].2@))
                    &&& forall|x: Seq<char>|
                        strings_view(r@[e].1@).contains(x) <==> exists|i: int|
                            0 <= i < rules@.len() && (#[trigger] rules@[i]).0@ == x && in_group(
                                self.keywords(),
                                r@[e].0 as int,
                                rules@[i].0@,
                                rules@[i].1@,
                            )
                    &&& forall|x: Seq<char>|
                        strings_view(r@[e].2@).contains(x) <==> exists|i: int|
                            0 <= i < rules@.len() && (#[trigger] rules@[i]).1@ == x && in_group(
                                self.keywords(),
                                r@[e].0 as int,
                                rules@[i].0@,
                                rules@[i].1@,
                            )
                },
    {
        let mut r: Vec<(usize, Vec<String>, Vec<String>)> = Vec::new();
        let mut g: usize = 0;
        while g < 5
            invariant
                0 <= g <= 5,
                forall|a: int, b: int| 0 <= a < b < r@.len() ==> r@[a].0 < r@[b].0,
                forall|e: int| 0 <= e < r@.len() ==> (#[trigger] r@[e]).0 < g,
                forall|h: int|
                    0 <= h < g ==> (group_has_member(self.keywords(), h, rules@) <==> exists|e: int|
                        0 <= e < r@.len() && (#[trigger] r@[e]).0 == h),
                forall|e: int|
                    0 <= e < r@.len() ==> {
                        &&& sorted_unique(strings_view((#[trigger] r@[e]).1@))
                        &&& sorted_unique(strings_view(r@[e].2@))
                        &&& forall|x: Seq<char>|
                            strings_view(r@[e].1@).contains(x) <==> exists|i: int|
                                0 <= i < rules@.len() && (#[trigger] rules@[i]).0@ == x && in_group(
                                    self.keywords(),
                                    r@[e].0 as int,
                                    rules@[i].0@,
                                    rules@[i].1@,
                                )
                        &&& forall|x: Seq<char>|
                            strings_view(r@[e].2@).contains(x) <==> exists|i: int|
                                0 <= i < rules@.len() && (#[trigger] rules@[i]).1@ == x && in_group(
                                    self.keywords(),
                                    r@[e].0 as int,
                                    rules@[i].0@,
                                    rules@[i].1@,
                                )
                    },
            decreases 5 - g,
        {
            let (ids, paths) = self.group_members(rules, g);
            if ids.len() > 0 {
                let ghost before = r@;
                r.push((g, ids, paths));
                proof {
                    assert(strings_view(ids@)[0] == ids@[0]@);
                    assert(strings_view(ids@).contains(ids@[0]@));
                    let w = choose|i: int| 0 <= i < rules@.len() && (#[trigger] rules@[i]).0@ == ids@[0]@ && in_group(
                        self.keywords(),
                        g as int,
                        rules@[i].0@,
                        rules@[i].1@,
                    );
                    assert(in_group(self.keywords(), g as int, rules@[w].0@, rules@[w].1@));
                    assert(group_has_member(self.keywords(), g as int, rules@));
                    assert(r@[before.len() as int].0 == g);
                    assert forall|h: int|
                        0 <= h < g + 1 implies (group_has_member(self.keywords(), h, rules@) <==> exists|e: int|
                            0 <= e < r@.len() && (#[trigger] r@[e]).0 == h) by {
                        if h < g {
                            if exists|e: int| 0 <= e < before.len() && (#[trigger] before[e]).0 == h {
                                let e = choose|e: int| 0 <= e < before.len() && (#[trigger] before[e]).0 == h;
                                assert(r@[e] == before[e]);
                            }
                            if exists|e: int| 0 <= e < r@.len() && (#[trigger] r@[e]).0 == h {
                                let e = choose|e: int| 0 <= e < r@.len() && (#[trigger] r@[e]).0 == h;
                                assert(e < before.len());
                                assert(r@[e] == before[e]);
                            }
                        }
                    }
                }
            } else {
                proof {
                    if group_has_member(self.keywords(), g as int, rules@) {
                        let i = choose|i: int| 0 <= i < rules@.len() && in_group(
                            self.keywords(),
                            g as int,
                            (#[trigger] rules@[i]).0@,
                            rules@[i].1@,
                        );
                        assert(strings_view(ids@).contains(rules@[i].0@));
                    }
                }
            }
            g = g + 1;
        }
        r
    }

    /// The identifiers and output paths of the members of group `g`, each
    /// sorted and without repeats.
    fn group_members(&self, rules: &Vec<(String, String)>, g: usize) -> (r: (Vec<String>, Vec<String>))
        ensures
            sorted_unique(strings_view(r.0@)),
            sorted_unique(strings_view(r.1@)),
            forall|x: Seq<char>|
                strings_view(r.0@).contains(x) <==> exists|i: int|
                    0 <= i < rules@.len() && (#[trigger] rules@[i]).0@ == x && in_group(
                        self.keywords(),
                        g as int,
                        rules@[i].0@,
                        rules@[i].1@,
                    ),
            forall|x: Seq<char>|
                strings_view(r.1@).contains(x) <==> exists|i: int|
                    0 <= i < rules@.len() && (#[trigger] rules@[i]).1@ == x && in_group(
                        self.keywords(),
                        g as int,
                        rules@[i].0@,
                        rules@[i].1@,
                    ),
    {
        let keywords = self.group_keyword_list(g);
        let mut ids: Vec<String> = Vec::new();
        let mut paths: Vec<String> = Vec::new();
        let mut k: usize = 0;
        while k < rules.len()
            invariant
                0 <= k <= rules@.len(),
                strs_view(keywords@) == group_keywords(self.keywords(), g as int),
                sorted_unique(strings_view(ids@)),
                sorted_unique(strings_view(paths@)),
                forall|x: Seq<char>|
                    strings_view(ids@).contains(x) <==> exists|i: int|
                        0 <= i < k && (#[trigger] rules@[i]).0@ == x && in_group(
                            self.keywords(),
                            g as int,
                            rules@[i].0@,
                            rules@[i].1@,
                        ),
                forall|x: Seq<char>|
                    strings_view(paths@).contains(x) <==> exists|i: int|
                        0 <= i < k && (#[trigger] rules@[i]).1@ == x && in_group(
                            self.keywords(),
                            g as int,
                            rules@[i].0@,
                            rules@[i].1@,
                        ),
            decreases rules@.len() - k,
        {
            let (id, output) = &rules[k];
            let mut joined: Vec<char> = Vec::new();
            push_str(&mut joined, id.as_str());
            push_str(&mut joined, " ");
            push_str(&mut joined, output.as_str());
            let joined_s = string_from_chars(joined.as_slice());
            let lower_s = str_to_lowercase(joined_s.as_str());
            let lower = str_chars(lower_s.as_str());
            let member = mentions_any_exec(lower.as_slice(), keywords);
            assert(member == in_group(self.keywords(), g as int, id@, output@));
            let ghost ids0 = strings_view(ids@);
            let ghost paths0 = strings_view(paths@);
            if member {
                insert_sorted(&mut ids, id.clone());
                insert_sorted(&mut paths, output.clone());
            }
            proof {
                assert forall|x: Seq<char>|
                    strings_view(ids@).contains(x) <==> exists|i: int|
                        0 <= i < k + 1 && (#[trigger] rules@[i]).0@ == x && in_group(
                            self.keywords(),
                            g as int,
                            rules@[i].0@,
                            rules@[i].1@,
                        ) by {
                    if member {
                        assert(strings_view(ids@).to_set().contains(x) == ids0.to_set().insert(id@).contains(x));
                    } else {
                        assert(strings_view(ids@) == ids0);
                    }
                    if exists|i: int|
                        0 <= i < k + 1 && (#[trigger] rules@[i]).0@ == x && in_group(
                            self.keywords(),
                            g as int,
                            rules@[i].0@,
                            rules@[i].1@,
                        ) {
                        let i = choose|i: int|
                            0 <= i < k + 1 && (#[trigger] rules@[i]).0@ == x && in_group(
                                self.keywords(),
                                g as int,
                                rules@[i].0@,
                                rules@[i].1@,
                            );
                        if i < k {
                            assert(ids0.contains(x));
                        }
                    }
                }
                assert forall|x: Seq<char>|
                    strings_view(paths@).contains(x) <==> exists|i: int|
                        0 <= i < k + 1 && (#[trigger] rules@[i]).1@ == x && in_group(
                            self.keywords(),
                            g as int,
                            rules@[i].0@,
                            rules@[i].1@,
                        ) by {
                    if member {
                        assert(strings_view(paths@).to_set().contains(x) == paths0.to_set().insert(output@).contains(x));
                    } else {
                        assert(strings_view(paths@) == paths0);
                    }
                    if exists|i: int|
                        0 <= i < k + 1 && (#[trigger] rules@[i]).1@ == x && in_group(
                            self.keywords(),
                            g as int,
                            rules@[i].0@,
                            rules@[i].1@,
                        ) {
                        let i = choose|i: int|
                            0 <= i < k + 1 && (#[trigger] rules@[i]).1@ == x && in_group(
                                self.keywords(),
                                g as int,
                                rules@[i].0@,
                                rules@[i].1@,
                            );
                        if i < k {
                            assert(paths0.contains(x));
                        }
                    }
                }
            }
            k = k + 1;
        }
        (ids, paths)
    }
}

} // verus!
