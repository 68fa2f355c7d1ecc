//! Response parsing utilities for LLM output.
//!
//! Decides a boolean from an LLM text response, avoiding naive approaches
//! that misinterpret negation, and finds the first number in a response.
//! The regular expressions are those of the `regex` crate.

use vstd::prelude::*;
use crate::farmscript::lexer::{char_utf8_len, trim, trim_chars};
use crate::llm::error::{LlmEvaluatorError, SpecLlmError};
use crate::text::{
    byte_len, byte_offset, bytes_exceed, contains_seq, contains_str, push_chars, push_str, starts_with_seq, starts_with_str,
    ascii_lower, ascii_lower_seq, str_chars, str_to_lowercase, string_from_chars, unicode_lowercase, utf8_len,
};

verus! {

/// What compiling `pattern` with `regex::Regex::new` and asking `is_match`
/// on `text` gives: whether `text` has a match, or `None` when the pattern
/// does not compile.
pub uninterp spec fn regex_is_match_result(pattern: Seq<char>, text: Seq<char>) -> Option<bool>;

/// What compiling `pattern` with `regex::Regex::new` and asking `find` on
/// `text` gives: the text of the leftmost-first match, if any, or `None`
/// when the pattern does not compile.
pub uninterp spec fn regex_find_result(pattern: Seq<char>, text: Seq<char>) -> Option<Option<Seq<char>>>;

/// An ASCII character that can be part of a word: a letter, a digit or `_`.
pub open spec fn ascii_word_char(c: char) -> bool {
    ('a' <= c && c <= 'z') || ('A' <= c && c <= 'Z') || ('0' <= c && c <= '9') || c == '_'
}

/// Every character of `text` is ASCII.
pub open spec fn all_ascii(text: Seq<char>) -> bool {
    forall|i: int| 0 <= i < text.len() ==> (#[trigger] text[i] as u32) < 0x80
}

/// `text` opens with the word `w` (letters compared without case), which
/// ends the text or is followed by an ASCII character that is no part of a
/// word.
pub open spec fn opens_with_word(text: Seq<char>, w: Seq<char>) -> bool {
    &&& w.len() <= text.len()
    &&& ascii_lower_seq(text.subrange(0, w.len() as int)) == w
    &&& (text.len() == w.len() || ((text[w.len() as int] as u32) < 0x80 && !ascii_word_char(text[w.len() as int])))
}

/// `text` opens with one of the answers yes, true or 1.
pub open spec fn opens_affirmative(text: Seq<char>) -> bool {
    opens_with_word(text, "yes"@) || opens_with_word(text, "true"@) || opens_with_word(text, "1"@)
}

/// `text` opens with one of the answers no, false or 0.
pub open spec fn opens_negative(text: Seq<char>) -> bool {
    opens_with_word(text, "no"@) || opens_with_word(text, "false"@) || opens_with_word(text, "0"@)
}

/// `text` is ASCII and mentions neither yes nor true, in any letter case.
pub open spec fn ascii_without_affirmative(text: Seq<char>) -> bool {
    &&& all_ascii(text)
    &&& !contains_seq(ascii_lower_seq(text), "yes"@)
    &&& !contains_seq(ascii_lower_seq(text), "true"@)
}

/// `regex::Regex::new(pattern)` then `Regex::is_match(text)`.  For the two
/// answer patterns the contract also states what the `regex` syntax makes of
/// them: `^\s*(yes|true|1)\b` (case-insensitive) matches a text opening with
/// one of those words, the same for no/false/0, and the affirmative pattern
/// cannot match an ASCII text that opens with `0`, `n` or `f` and mentions
/// neither yes nor true.
#[verifier::external_body]
fn regex_is_match(pattern: &str, text: &str) -> (r: Option<bool>)
    ensures
        r == regex_is_match_result(pattern@, text@),
        pattern@ == "(?i)^\\s*(yes|true|1)\\b|\\b(yes|true)\\s*[.!]?\\s*$"@ && opens_affirmative(text@) ==> r == Some(true),
        pattern@ == "(?i)^\\s*(no|false|0)\\b|\\b(no|false)\\s*[.!]?\\s*$"@ && opens_negative(text@) ==> r == Some(true),
        pattern@ == "(?i)^\\s*(yes|true|1)\\b|\\b(yes|true)\\s*[.!]?\\s*$"@ && ascii_without_affirmative(text@) && text@.len() > 0 && (text@[0] == '0' || text@[0] == 'n'
            || text@[0] == 'N' || text@[0] == 'f' || text@[0] == 'F') ==> r == Some(false),
{
    match regex::Regex::new(pattern) {
        Ok(re) => Some(re.is_match(text)),
        Err(_) => None,
    }
}

/// `regex::Regex::new(pattern)` then `Regex::find(text)`, taking the text of
/// the match; a match is a piece of `text`.
#[verifier::external_body]
fn regex_find(pattern: &str, text: &str) -> (r: Option<Option<String>>)
    ensures
        match r {
            Some(Some(m)) => regex_find_result(pattern@, text@) == Some(Some(m@)) && contains_seq(text@, m@),
            Some(None) => regex_find_result(pattern@, text@) == Some(None::<Seq<char>>),
            None => regex_find_result(pattern@, text@) is None,
        },
{
    match regex::Regex::new(pattern) {
        Ok(re) => Some(re.find(text).map(|m| m.as_str().to_string())),
        Err(_) => None,
    }
}

/// A number (integer or decimal, with optional sign): 42, -42, 42.5, -42.5,
/// .5, -.5
pub open spec fn number_pattern() -> Seq<char> {
    "-?\\d+\\.?\\d*|-?\\.\\d+"@
}

/// An explicit yes/true/1 answer at the start, or yes/true at the end.
pub open spec fn true_pattern() -> Seq<char> {
    "(?i)^\\s*(yes|true|1)\\b|\\b(yes|true)\\s*[.!]?\\s*$"@
}

/// An explicit no/false/0 answer at the start, or no/false at the end.
pub open spec fn false_pattern() -> Seq<char> {
    "(?i)^\\s*(no|false|0)\\b|\\b(no|false)\\s*[.!]?\\s*$"@
}

/// A negation that makes the answer false even when "true" appears.
pub open spec fn negation_signal(lower: Seq<char>) -> bool {
    contains_seq(lower, "not true"@) || contains_seq(lower, "n't true"@) || contains_seq(
        lower,
        "isn't true"@,
    ) || contains_seq(lower, "not correct"@) || contains_seq(lower, "is false"@) || starts_with_seq(
        lower,
        "no,"@,
    ) || starts_with_seq(lower, "no."@) || starts_with_seq(lower, "no "@)
}

/// The boolean a response states, if it states one: a negation first, then
/// an explicit answer at the start or end, then any mention of
/// false / true or yes / no, in that order.
pub open spec fn boolean_signal(text: Seq<char>) -> Option<bool> {
    let t = trim(text);
    let lower = unicode_lowercase(t);
    if negation_signal(lower) {
        Some(false)
    } else if regex_is_match_result(true_pattern(), t) == Some(true) {
        Some(true)
    } else if regex_is_match_result(false_pattern(), t) == Some(true) {
        Some(false)
    } else if contains_seq(lower, "false"@) {
        Some(false)
    } else if contains_seq(lower, "true"@) || contains_seq(lower, "yes"@) {
        Some(true)
    } else if contains_seq(lower, "no"@) {
        Some(false)
    } else {
        None
    }
}


/// Whether the first 100 bytes of `s` end on a character boundary (or `s`
/// is no longer than that), so that they can be cut off.
pub open spec fn cuts_cleanly(s: Seq<char>) -> bool {
    byte_len(s) <= 100 || exists|i: int| 0 <= i <= s.len() && byte_offset(s, i) == 100
}

/// `s` cut to its first 100 bytes, with `...` appended, when it is longer.
pub open spec fn truncated(s: Seq<char>) -> Seq<char> {
    if byte_len(s) > 100 {
        s.subrange(0, choose|i: int| 0 <= i <= s.len() && byte_offset(s, i) == 100) + "..."@
    } else {
        s
    }
}

proof fn lemma_byte_offset_strict(s: Seq<char>, i: int, j: int)
    requires
        0 <= i < j <= s.len(),
    ensures
        byte_offset(s, i) < byte_offset(s, j),
    decreases j - i,
{
    if i < j - 1 {
        lemma_byte_offset_strict(s, i, j - 1);
    }
}

/// The character index at which the first 100 bytes of `s` end, when `s` is
/// longer than 100 bytes and they end on a character boundary.
fn cut_index(s: &[char]) -> (r: Option<usize>)
    ensures
        match r {
            Some(i) => byte_len(s@) > 100 && i <= s@.len() && byte_offset(s@, i as int) == 100,
            None => !(byte_len(s@) > 100 && cuts_cleanly(s@)),
        },
{
    let mut i: usize = 0;
    let mut bytes: usize = 0;
    while i < s.len() && bytes < 100
        invariant
            0 <= i <= s@.len(),
            bytes == byte_offset(s@, i as int),
            bytes <= 103,
            forall|k: int| 0 <= k < i ==> byte_offset(s@, k) < 100,
        decreases s@.len() - i,
    {
        bytes = bytes + char_utf8_len(s[i]);
        i = i + 1;
    }
    proof {
        crate::text::lemma_byte_offset_mono(s@, i as int, s@.len() as int);
    }
    if bytes == 100 && i < s.len() {
        proof {
            lemma_byte_offset_strict(s@, i as int, s@.len() as int);
        }
        Some(i)
    } else {
        proof {
            if byte_len(s@) > 100 && cuts_cleanly(s@) {
                let j = choose|j: int| 0 <= j <= s@.len() && byte_offset(s@, j) == 100;
                if j < i {
                } else if j == i {
                    if i == s@.len() {
                    }
                } else {
                    crate::text::lemma_byte_offset_mono(s@, i as int, j);
                    if bytes < 100 {
                        assert(i == s@.len());
                    } else {
                        lemma_byte_offset_strict(s@, i as int, j);
                    }
                }
            }
        }
        None
    }
}

/// Truncate text for error messages to avoid huge logs: the first 100
/// bytes and `...` when it is longer.
pub fn truncate_for_error(text: &str) -> (r: String)
    requires
        cuts_cleanly(text@),
    ensures
        r@ == truncated(text@),
{
    let cs = str_chars(text);
    match cut_index(cs.as_slice()) {
        Some(i) => {
            let mut v: Vec<char> = Vec::new();
            let mut k: usize = 0;
            while k < i
                invariant
                    0 <= k <= i <= cs@.len(),
                    v@ == cs@.subrange(0, k as int),
                decreases i - k,
            {
                v.push(cs[k]);
                k = k + 1;
                assert(v@ =~= cs@.subrange(0, k as int));
            }
            push_str(&mut v, "...");
            proof {
                let j = choose|j: int| 0 <= j <= cs@.len() && byte_offset(cs@, j) == 100;
                if j < i {
                    lemma_byte_offset_strict(cs@, j, i as int);
                } else if j > i {
                    lemma_byte_offset_strict(cs@, i as int, j);
                }
            }
            string_from_chars(v.as_slice())
        },
        None => {
            proof {
                crate::text::lemma_byte_offset_mono(cs@, 0, cs@.len() as int);
            }
            string_from_chars(cs.as_slice())
        },
    }
}

/// `truncate_for_error` where it is defined: `None` when the first 100
/// bytes of a longer text would end inside a character.
pub fn try_truncate_for_error(text: &str) -> (r: Option<String>)
    ensures
        match r {
            Some(s) => cuts_cleanly(text@) && s@ == truncated(text@),
            None => !cuts_cleanly(text@),
        },
{
    let cs = str_chars(text);
    match cut_index(cs.as_slice()) {
        Some(i) => Some(truncate_for_error(text)),
        None => {
            if bytes_exceed(cs.as_slice(), 100) {
                None
            } else {
                Some(truncate_for_error(text))
            }
        },
    }
}

/// The boolean a response states (see [`boolean_signal`]).
pub fn boolean_signal_of(text: &str) -> (r: Option<bool>)
    ensures
        r == boolean_signal(text@),
        opens_affirmative(trim(text@)) && !negation_signal(unicode_lowercase(trim(text@))) ==> r == Some(true),
        opens_negative(trim(text@)) && ascii_without_affirmative(trim(text@)) ==> r == Some(false),
{
    proof {
        let t = trim(text@);
        if opens_negative(t) {
            reveal_strlit("no");
            reveal_strlit("false");
            reveal_strlit("0");
            let c = t[0];
            assert("no"@[0] == 'n' && "false"@[0] == 'f' && "0"@[0] == '0');
            if opens_with_word(t, "no"@) {
                assert(ascii_lower_seq(t.subrange(0, 2))[0] == ascii_lower(c));
            } else if opens_with_word(t, "false"@) {
                assert(ascii_lower_seq(t.subrange(0, 5))[0] == ascii_lower(c));
            } else {
                assert(ascii_lower_seq(t.subrange(0, 1))[0] == ascii_lower(c));
            }
            assert(ascii_lower(c) == 'n' || ascii_lower(c) == 'f' || ascii_lower(c) == '0');
            assert(c == '0' || c == 'n' || c == 'N' || c == 'f' || c == 'F') by {
                if 'A' <= c && c <= 'Z' {
                    assert((c as u32) + 32 == (ascii_lower(c) as u32));
                }
            }
        }
    }
    let cs = str_chars(text);
    let t = trim_chars(cs.as_slice());
    let ts = string_from_chars(t.as_slice());
    let lower_s = str_to_lowercase(ts.as_str());
    let lower = str_chars(lower_s.as_str());
    let l = lower.as_slice();
    let has_negation = contains_str(l, "not true") || contains_str(l, "n't true") || contains_str(
        l,
        "isn't true",
    ) || contains_str(l, "not correct") || contains_str(l, "is false") || starts_with_str(l, "no,")
        || starts_with_str(l, "no.") || starts_with_str(l, "no ");
    if has_negation {
        return Some(false);
    }
    if regex_is_match("(?i)^\\s*(yes|true|1)\\b|\\b(yes|true)\\s*[.!]?\\s*$", ts.as_str()) == Some(true) {
        return Some(true);
    }
    if regex_is_match("(?i)^\\s*(no|false|0)\\b|\\b(no|false)\\s*[.!]?\\s*$", ts.as_str()) == Some(true) {
        return Some(false);
    }
    if contains_str(l, "false") {
        return Some(false);
    }
    if contains_str(l, "true") || contains_str(l, "yes") {
        return Some(true);
    }
    if contains_str(l, "no") {
        return Some(false);
    }
    None
}

/// The error returned when no boolean can be read from a response.
pub open spec fn boolean_error(text: Seq<char>) -> SpecLlmError {
    SpecLlmError::ParseError("Could not determine boolean value from response: "@ + truncated(trim(text)))
}

/// Parse a boolean from LLM response text.
///
/// Looks for explicit true/false/yes/no answers, giving precedence to:
/// 1. First word of response (e.g., "Yes, because...")
/// 2. Explicit answer at end (e.g., "...the answer is true.")
pub fn parse_boolean(text: &str) -> (r: Result<bool, LlmEvaluatorError>)
    requires
        boolean_signal(text@) is None ==> cuts_cleanly(trim(text@)),
    ensures
        match boolean_signal(text@) {
            Some(b) => r == Ok::<bool, LlmEvaluatorError>(b),
            None => r matches Err(e) && e@ == boolean_error(text@),
        },
        opens_affirmative(trim(text@)) && !negation_signal(unicode_lowercase(trim(text@))) ==> r == Ok::<
            bool,
            LlmEvaluatorError,
        >(true),
        opens_negative(trim(text@)) && ascii_without_affirmative(trim(text@)) ==> r == Ok::<bool, LlmEvaluatorError>(
            false,
        ),
{
    match boolean_signal_of(text) {
        Some(b) => Ok(b),
        None => {
            let cs = str_chars(text);
            let t = trim_chars(cs.as_slice());
            let ts = string_from_chars(t.as_slice());
            let excerpt = truncate_for_error(ts.as_str());
            let mut msg: Vec<char> = Vec::new();
            push_str(&mut msg, "Could not determine boolean value from response: ");
            push_str(&mut msg, excerpt.as_str());
            Err(LlmEvaluatorError::ParseError(string_from_chars(msg.as_slice())))
        },
    }
}

/// [`parse_boolean`] on every text: `None` exactly where no boolean can be
/// read and the excerpt for the error message cannot be cut.
pub fn try_parse_boolean(text: &str) -> (r: Option<Result<bool, LlmEvaluatorError>>)
    ensures
        match r {
            Some(res) => (boolean_signal(text@) is None ==> cuts_cleanly(trim(text@))) && match boolean_signal(
                text@,
            ) {
                Some(b) => res == Ok::<bool, LlmEvaluatorError>(b),
                None => res matches Err(e) && e@ == boolean_error(text@),
            },
            None => boolean_signal(text@) is None && !cuts_cleanly(trim(text@)),
        },
{
    let signal = boolean_signal_of(text);
    if signal.is_none() {
        let cs = str_chars(text);
        let t = trim_chars(cs.as_slice());
        let ts = string_from_chars(t.as_slice());
        if try_truncate_for_error(ts.as_str()).is_none() {
            return None;
        }
    }
    Some(parse_boolean(text))
}

/// The text of the first number in a response: the first match of
/// [`number_pattern`] (`None` when there is none).
pub fn first_number_text(text: &str) -> (r: Option<String>)
    ensures
        match r {
            Some(m) => regex_find_result(number_pattern(), text@) == Some(Some(m@)),
            None => match regex_find_result(number_pattern(), text@) {
                Some(Some(_)) => false,
                _ => true,
            },
        },
{
    match regex_find("-?\\d+\\.?\\d*|-?\\.\\d+", text) {
        Some(Some(m)) => Some(m),
        _ => None,
    }
}

} // verus!
