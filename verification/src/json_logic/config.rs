//! Configuration for JSON Logic evaluation
//!
//! Every setting can be given by an environment variable with the prefix
//! `RULE_ENGINE_`; where it is missing or does not read as a number, the
//! default stands.  The environment is handed to [`Config::from_env`] as a
//! list of (name, value) pairs.

use vstd::prelude::*;
use crate::text::{all_digits, chars_eq_str, digits_value, is_ascii_digit, lemma_digits_value_grows, str_chars};

verus! {

/// JSON Logic configuration
#[derive(Debug, Clone)]
pub struct Config {
    /// How many times a rule must be evaluated before compiling to bytecode.
    /// Environment variable: RULE_ENGINE_BYTECODE_PROMOTION_THRESHOLD (default 100)
    pub bytecode_promotion_threshold: u64,
    /// Minimum expression complexity (AST node count) to consider for bytecode compilation.
    /// Environment variable: RULE_ENGINE_BYTECODE_MIN_COMPLEXITY (default 5)
    pub bytecode_min_complexity: usize,
    /// Maximum operand stack size for the bytecode VM.
    /// Environment variable: RULE_ENGINE_BYTECODE_STACK_LIMIT (default 65536)
    pub bytecode_stack_limit: usize,
    /// Maximum pending operations in the evaluator work queue.
    /// Environment variable: RULE_ENGINE_EVAL_WORK_QUEUE_LIMIT (default 1000000)
    pub eval_work_queue_limit: usize,
    /// Maximum evaluation steps before aborting.
    /// Environment variable: RULE_ENGINE_EVAL_MAX_STEPS (default 1000000)
    pub eval_max_steps: usize,
}

impl Default for Config {
    fn default() -> (c: Self)
        ensures
            c.bytecode_promotion_threshold == 100,
            c.bytecode_min_complexity == 5,
            c.bytecode_stack_limit == 65_536,
            c.eval_work_queue_limit == 1_000_000,
            c.eval_max_steps == 1_000_000,
    {
        Config {
            bytecode_promotion_threshold: 100,
            bytecode_min_complexity: 5,
            bytecode_stack_limit: 65_536,
            eval_work_queue_limit: 1_000_000,
            eval_max_steps: 1_000_000,
        }
    }
}

/// The digits of an unsigned decimal number as it may be written: an
/// optional `+`, then one or more ASCII digits, nothing else.
pub open spec fn unsigned_digits(s: Seq<char>) -> Option<Seq<char>> {
    let body = unsigned_body(s);
    if body.len() > 0 && all_digits(body) {
        Some(body)
    } else {
        None
    }
}

/// `s` without its leading `+`, if it has one.
pub open spec fn unsigned_body(s: Seq<char>) -> Seq<char> {
    if s.len() > 0 && s[0] == '+' {
        s.drop_first()
    } else {
        s
    }
}


/// The unsigned number `s` reads as, when it is written as one and is at
/// most `max`.
pub open spec fn parsed_unsigned(s: Seq<char>, max: nat) -> Option<nat> {
    match unsigned_digits(s) {
        Some(ds) => if digits_value(ds) <= max {
            Some(digits_value(ds))
        } else {
            None
        },
        None => None,
    }
}

/// Read an unsigned decimal number of at most `max` (what `str::parse`
/// gives for an unsigned integer type whose largest value is `max`).
pub fn parse_unsigned(s: &str, max: u64) -> (r: Option<u64>)
    ensures
        match r {
            Some(n) => parsed_unsigned(s@, max as nat) == Some(n as nat),
            None => parsed_unsigned(s@, max as nat) is None,
        },
{
    let cs = str_chars(s);
    let start: usize = if cs.len() > 0 && cs[0] == '+' { 1 } else { 0 };
    let ghost body = if cs@.len() > 0 && cs@[0] == '+' { cs@.drop_first() } else { cs@ };
    assert(body =~= cs@.subrange(start as int, cs@.len() as int));
    if start >= cs.len() {
        return None;
    }
    let mut acc: u64 = 0;
    let mut i: usize = start;
    while i < cs.len()
        invariant
            start <= i <= cs@.len(),
            start < cs@.len(),
            cs@ == s@,
            body == unsigned_body(s@),
            body == cs@.subrange(start as int, cs@.len() as int),
            forall|k: int| 0 <= k < i - start ==> is_ascii_digit(#[trigger] body[k]),
            acc as nat == digits_value(body.subrange(0, i - start)),
            acc <= max,
        decreases cs@.len() - i,
    {
        let c = cs[i];
        if !('0' <= c && c <= '9') {
            assert(!is_ascii_digit(body[i - start]));
            assert(!all_digits(body));
            return None;
        }
        let d: u64 = (c as u32 - '0' as u32) as u64;
        let ghost p = body.subrange(0, i + 1 - start);
        assert(p.drop_last() =~= body.subrange(0, i - start));
        assert(p.last() == c);
        let next: Option<u64> = match acc.checked_mul(10) {
            Some(t) => t.checked_add(d),
            None => None,
        };
        let fits = match next {
            Some(v) => v <= max,
            None => false,
        };
        if !fits {
            proof {
                if all_digits(body) {
                    lemma_digits_value_grows(body, i + 1 - start);
                }
            }
            return None;
        }
        acc = next.unwrap();
        i = i + 1;
    }
    assert(body.subrange(0, i - start) =~= body);
    Some(acc)
}

/// The value of the first variable named `key` from position `k` on in
/// a list of environment variables.
pub open spec fn env_value(env: Seq<(String, String)>, key: Seq<char>, k: int) -> Option<Seq<char>>
    decreases env.len() - k,
{
    if k < 0 || k >= env.len() {
        None
    } else if env[k].0@ == key {
        Some(env[k].1@)
    } else {
        env_value(env, key, k + 1)
    }
}

/// A numeric setting: the value of the variable `key` where it is set and
/// reads as a number of at most `max`, else `default`.
pub open spec fn env_setting(env: Seq<(String, String)>, key: Seq<char>, default: nat, max: nat) -> nat {
    match env_value(env, key, 0) {
        Some(v) => match parsed_unsigned(v, max) {
            Some(n) => n,
            None => default,
        },
        None => default,
    }
}

pub(crate) fn env_lookup<'a>(env: &'a Vec<(String, String)>, key: &str) -> (r: Option<&'a String>)
    ensures
        match r {
            Some(v) => env_value(env@, key@, 0) == Some(v@),
            None => env_value(env@, key@, 0) is None,
        },
{
    let mut i: usize = 0;
    while i < env.len()
        invariant
            0 <= i <= env@.len(),
            env_value(env@, key@, 0) == env_value(env@, key@, i as int),
        decreases env@.len() - i,
    {
        let name = str_chars(env[i].0.as_str());
        if chars_eq_str(name.as_slice(), key) {
            return Some(&env[i].1);
        }
        i = i + 1;
    }
    None
}

/// Parse an environment variable with a default value
fn parse_env(env: &Vec<(String, String)>, key: &str, default: u64, max: u64) -> (r: u64)
    requires
        default <= max,
    ensures
        r as nat == env_setting(env@, key@, default as nat, max as nat),
        r <= max,
{
    match env_lookup(env, key) {
        Some(v) => match parse_unsigned(v.as_str(), max) {
            Some(n) => n,
            None => default,
        },
        None => default,
    }
}

/// The largest `usize`, as a `u64`.
fn usize_max() -> (r: u64)
    ensures
        r == usize::MAX,
{
    usize::MAX as u64
}

impl Config {
    /// Load configuration from environment variables with defaults
    pub fn from_env(env: &Vec<(String, String)>) -> (c: Self)
        ensures
            c.bytecode_promotion_threshold == env_setting(
                env@,
                "RULE_ENGINE_BYTECODE_PROMOTION_THRESHOLD"@,
                100,
                u64::MAX as nat,
            ),
            c.bytecode_min_complexity == env_setting(
                env@,
                "RULE_ENGINE_BYTECODE_MIN_COMPLEXITY"@,
                5,
                usize::MAX as nat,
            ),
            c.bytecode_stack_limit == env_setting(
                env@,
                "RULE_ENGINE_BYTECODE_STACK_LIMIT"@,
                65_536,
                usize::MAX as nat,
            ),
            c.eval_work_queue_limit == env_setting(
                env@,
                "RULE_ENGINE_EVAL_WORK_QUEUE_LIMIT"@,
                1_000_000,
                usize::MAX as nat,
            ),
            c.eval_max_steps == env_setting(env@, "RULE_ENGINE_EVAL_MAX_STEPS"@, 1_000_000, usize::MAX as nat),
    {
        let umax = usize_max();
        Config {
            bytecode_promotion_threshold: parse_env(
                env,
                "RULE_ENGINE_BYTECODE_PROMOTION_THRESHOLD",
                100,
                u64::MAX,
            ),
            bytecode_min_complexity: parse_env(env, "RULE_ENGINE_BYTECODE_MIN_COMPLEXITY", 5, umax) as usize,
            bytecode_stack_limit: parse_env(env, "RULE_ENGINE_BYTECODE_STACK_LIMIT", 65_536, umax) as usize,
            eval_work_queue_limit: parse_env(env, "RULE_ENGINE_EVAL_WORK_QUEUE_LIMIT", 1_000_000, umax) as usize,
            eval_max_steps: parse_env(env, "RULE_ENGINE_EVAL_MAX_STEPS", 1_000_000, umax) as usize,
        }
    }
}

/// A setting that the environment does not set takes its default, and
/// one set to a number within range takes that number: so an environment
/// that sets none of the five variables gives the default configuration.
pub proof fn lemma_env_setting(env: Seq<(String, String)>, key: Seq<char>, default: nat, max: nat)
    ensures
        match env_value(env, key, 0) {
            None => env_setting(env, key, default, max) == default,
            Some(v) => match parsed_unsigned(v, max) {
                Some(n) => env_setting(env, key, default, max) == n,
                None => env_setting(env, key, default, max) == default,
            },
        },
{
}

} // verus!
