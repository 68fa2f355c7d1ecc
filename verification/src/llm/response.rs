//! Reading a model's answer: the text that holds its JSON, and the
//! yes/no of an answer in the simple boolean format.

use vstd::prelude::*;
use crate::engine::context::{assign, assign_entry, find, lookup};
use crate::engine::dag::strings_view;
use crate::farmscript::lexer::{trim, trim_chars};
use crate::json::{lemma_members_view, members_view, Json, SpecJson};
use crate::text::{
    contains_seq, contains_str, ends_with_seq, occurs_at_exec, starts_with_seq, starts_with_str, str_chars,
    str_to_lowercase, string_from_chars, unicode_lowercase,
};

verus! {

/// The inside of a fenced block that `t` opens with `fence`: what follows
/// the fence, without a closing "```" (the whole of `t` when there is
/// none), trimmed.
pub open spec fn unfenced(t: Seq<char>, fence: Seq<char>) -> Seq<char> {
    let rest = t.subrange(fence.len() as int, t.len() as int);
    if ends_with_seq(rest, "```"@) {
        trim(rest.subrange(0, rest.len() - 3))
    } else {
        trim(t)
    }
}

/// The JSON text of an answer written as a code block ("```json" or "```"
/// fence); `None` for an answer that is not one.
pub open spec fn code_block_text(text: Seq<char>) -> Option<Seq<char>> {
    let t = trim(text);
    if starts_with_seq(t, "```json"@) {
        Some(unfenced(t, "```json"@))
    } else if starts_with_seq(t, "```"@) {
        Some(unfenced(t, "```"@))
    } else {
        None
    }
}

/// The index of the first `c` in `t` (`t.len()` when there is none).
pub open spec fn first_index(t: Seq<char>, c: char, i: int) -> int
    decreases t.len() - i,
{
    if i < 0 || i >= t.len() {
        t.len() as int
    } else if t[i] == c {
        i
    } else {
        first_index(t, c, i + 1)
    }
}

/// The index of the last `c` in the first `k` characters of `t` (-1 when
/// there is none).
pub open spec fn last_index(t: Seq<char>, c: char, k: int) -> int
    decreases k,
{
    if k <= 0 {
        -1
    } else if t[k - 1] == c {
        k - 1
    } else {
        last_index(t, c, k - 1)
    }
}

/// The first `{` and the last `}` of `t`, when it has both.
pub open spec fn brace_span(t: Seq<char>) -> Option<(int, int)> {
    let s = first_index(t, '{', 0);
    let e = last_index(t, '}', t.len() as int);
    if s < t.len() && e >= 0 {
        Some((s, e))
    } else {
        None
    }
}

/// The JSON text of an answer that is not JSON as a whole: the inside of a
/// code block, else the text from its first `{` to its last `}`; `None`
/// when it has neither.
pub open spec fn embedded_json_text(text: Seq<char>) -> Option<Seq<char>> {
    match code_block_text(text) {
        Some(x) => Some(x),
        None => match brace_span(trim(text)) {
            Some((s, e)) => Some(trim(text).subrange(s, e + 1)),
            None => None,
        },
    }
}

/// Whether cutting out the braces of [`embedded_json_text`] is possible:
/// it is not when the last `}` stands more than one character before the
/// first `{`.
pub open spec fn braces_in_order(text: Seq<char>) -> bool {
    code_block_text(text) is None ==> match brace_span(trim(text)) {
        Some((s, e)) => s <= e + 1,
        None => true,
    }
}

fn unfenced_exec(t: &Vec<char>, fence_len: usize) -> (r: String)
    requires
        fence_len <= t@.len(),
    ensures
        r@ == unfenced(t@, t@.subrange(0, fence_len as int)),
{
    let ghost rest = t@.subrange(fence_len as int, t@.len() as int);
    let mut v: Vec<char> = Vec::new();
    let mut i: usize = fence_len;
    while i < t.len()
        invariant
            fence_len <= i <= t@.len(),
            v@ == t@.subrange(fence_len as int, i as int),
        decreases t@.len() - i,
    {
        v.push(t[i]);
        i = i + 1;
        assert(v@ =~= t@.subrange(fence_len as int, i as int));
    }
    assert(v@ =~= rest);
    let fence_end = str_chars("```");
    proof {
        reveal_strlit("```");
    }
    let closed = v.len() >= 3 && occurs_at_exec(v.as_slice(), fence_end.as_slice(), v.len() - 3);
    if closed {
        let mut inner: Vec<char> = Vec::new();
        let mut k: usize = 0;
        while k < v.len() - 3
            invariant
                0 <= k <= v@.len() - 3,
                v@.len() >= 3,
                inner@ == v@.subrange(0, k as int),
            decreases v@.len() - 3 - k,
        {
            inner.push(v[k]);
            k = k + 1;
            assert(inner@ =~= v@.subrange(0, k as int));
        }
        assert(inner@ =~= rest.subrange(0, rest.len() - 3));
        assert(ends_with_seq(rest, "```"@));
        let r = trim_chars(inner.as_slice());
        string_from_chars(r.as_slice())
    } else {
        assert(!ends_with_seq(rest, "```"@));
        let r = trim_chars(t.as_slice());
        string_from_chars(r.as_slice())
    }
}

/// The JSON text of an answer written as a code block (see
/// [`code_block_text`]).
pub fn code_block_json(text: &str) -> (r: Option<String>)
    ensures
        match r {
            Some(s) => code_block_text(text@) == Some(s@),
            None => code_block_text(text@) is None,
        },
{
    let cs = str_chars(text);
    let t = trim_chars(cs.as_slice());
    if starts_with_str(t.as_slice(), "```json") {
        proof {
            reveal_strlit("```json");
        }
        assert(t@.subrange(0, 7) =~= "```json"@);
        Some(unfenced_exec(&t, 7))
    } else if starts_with_str(t.as_slice(), "```") {
        proof {
            reveal_strlit("```");
        }
        assert(t@.subrange(0, 3) =~= "```"@);
        Some(unfenced_exec(&t, 3))
    } else {
        None
    }
}

/// The JSON text of an answer that is not JSON as a whole (see
/// [`embedded_json_text`]).
pub fn embedded_json(text: &str) -> (r: Option<String>)
    requires
        braces_in_order(text@),
    ensures
        match r {
            Some(s) => embedded_json_text(text@) == Some(s@),
            None => embedded_json_text(text@) is None,
        },
{
    match code_block_json(text) {
        Some(s) => Some(s),
        None => {
            let cs = str_chars(text);
            let t = trim_chars(cs.as_slice());
            let n = t.len();
            let mut s: usize = 0;
            while s < n && t[s] != '{'
                invariant
                    0 <= s <= n == t@.len(),
                    first_index(t@, '{', 0) == first_index(t@, '{', s as int),
                decreases n - s,
            {
                s = s + 1;
            }
            let mut k: usize = n;
            while k > 0 && t[k - 1] != '}'
                invariant
                    0 <= k <= n == t@.len(),
                    last_index(t@, '}', n as int) == last_index(t@, '}', k as int),
                decreases k,
            {
                k = k - 1;
            }
            if s < n && k > 0 {
                let e = k - 1;
                let mut v: Vec<char> = Vec::new();
                let mut i: usize = s;
                while i <= e
                    invariant
                        s <= e + 1,
                        e < n == t@.len(),
                        s <= i <= e + 1,
                        v@ == t@.subrange(s as int, i as int),
                    decreases e + 1 - i,
                {
                    v.push(t[i]);
                    i = i + 1;
                    assert(v@ =~= t@.subrange(s as int, i as int));
                }
                Some(string_from_chars(v.as_slice()))
            } else {
                None
            }
        },
    }
}

/// Whether cutting out the braces is possible (see [`braces_in_order`]).
pub fn braces_in_order_exec(text: &str) -> (r: bool)
    ensures
        r == braces_in_order(text@),
{
    if code_block_json(text).is_some() {
        return true;
    }
    let cs = str_chars(text);
    let t = trim_chars(cs.as_slice());
    let n = t.len();
    let mut s: usize = 0;
    while s < n && t[s] != '{'
        invariant
            0 <= s <= n == t@.len(),
            first_index(t@, '{', 0) == first_index(t@, '{', s as int),
        decreases n - s,
    {
        s = s + 1;
    }
    let mut k: usize = n;
    while k > 0 && t[k - 1] != '}'
        invariant
            0 <= k <= n == t@.len(),
            last_index(t@, '}', n as int) == last_index(t@, '}', k as int),
        decreases k,
    {
        k = k - 1;
    }
    if s < n && k > 0 {
        s <= k
    } else {
        true
    }
}

/// [`embedded_json`] on every text: `None` exactly where the braces cannot
/// be cut out (the last `}` stands more than one character before the first
/// `{`).
pub fn try_embedded_json(text: &str) -> (r: Option<Option<String>>)
    ensures
        match r {
            Some(x) => braces_in_order(text@) && match x {
                Some(s) => embedded_json_text(text@) == Some(s@),
                None => embedded_json_text(text@) is None,
            },
            None => !braces_in_order(text@),
        },
{
    if braces_in_order_exec(text) {
        Some(embedded_json(text))
    } else {
        None
    }
}

/// Whether a plain boolean answer says yes: its trimmed, lower-cased text
/// contains "true" or "yes", or is "1".
pub open spec fn affirmative_text(text: Seq<char>) -> bool {
    let l = unicode_lowercase(trim(text));
    contains_seq(l, "true"@) || contains_seq(l, "yes"@) || l == "1"@
}

/// Whether a plain boolean answer says yes (see [`affirmative_text`]).
pub fn affirmative(text: &str) -> (r: bool)
    ensures
        r == affirmative_text(text@),
{
    let cs = str_chars(text);
    let t = trim_chars(cs.as_slice());
    let ts = string_from_chars(t.as_slice());
    let lower_s = str_to_lowercase(ts.as_str());
    let lower = str_chars(lower_s.as_str());
    let l = lower.as_slice();
    contains_str(l, "true") || contains_str(l, "yes") || crate::text::chars_eq_str(l, "1")
}

/// The characters of an answer that can belong to a number: digits, `.`
/// and `-`, in order.
pub open spec fn number_chars_of(text: Seq<char>) -> Seq<char> {
    text.filter(|c: char| ('0' <= c && c <= '9') || c == '.' || c == '-')
}

/// The characters of an answer that can belong to a number (see
/// [`number_chars_of`]).
pub fn number_chars(text: &str) -> (r: String)
    ensures
        r@ == number_chars_of(text@),
{
    let cs = str_chars(text);
    let ghost f = |c: char| ('0' <= c && c <= '9') || c == '.' || c == '-';
    let mut v: Vec<char> = Vec::new();
    let mut i: usize = 0;
    while i < cs.len()
        invariant
            0 <= i <= cs@.len(),
            cs@ == text@,
            f == (|c: char| ('0' <= c && c <= '9') || c == '.' || c == '-'),
            v@ == cs@.subrange(0, i as int).filter(f),
        decreases cs@.len() - i,
    {
        let c = cs[i];
        assert(cs@.subrange(0, i + 1).drop_last() =~= cs@.subrange(0, i as int));
        proof {
            reveal(Seq::filter);
        }
        if ('0' <= c && c <= '9') || c == '.' || c == '-' {
            v.push(c);
        }
        i = i + 1;
        assert(v@ =~= cs@.subrange(0, i as int).filter(f));
    }
    assert(cs@.subrange(0, cs@.len() as int) =~= cs@);
    string_from_chars(v.as_slice())
}

// ---------------------------------------------------------------------------
// The outputs of an answer
// ---------------------------------------------------------------------------

/// The value for the first output, when there is one.
pub open spec fn first_output(names: Seq<Seq<char>>, v: SpecJson) -> Seq<(Seq<char>, SpecJson)> {
    if names.len() > 0 {
        seq![(names[0], v)]
    } else {
        Seq::empty()
    }
}

/// The members named by the first `k` names, each set in turn.
pub open spec fn named_members(m: Seq<(Seq<char>, SpecJson)>, names: Seq<Seq<char>>, k: int) -> Seq<
    (Seq<char>, SpecJson),
>
    decreases k,
{
    if k <= 0 {
        Seq::empty()
    } else {
        let prev = named_members(m, names, k - 1);
        match lookup(m, names[k - 1]) {
            Some(v) => assign(prev, names[k - 1], v),
            None => prev,
        }
    }
}

/// The outputs of a JSON answer: for an object, its members named as
/// outputs; any other value goes to the first output.
pub open spec fn json_answer_outputs(json: SpecJson, names: Seq<Seq<char>>) -> Seq<(Seq<char>, SpecJson)> {
    match json {
        SpecJson::Object(m) => named_members(m, names, names.len() as int),
        _ => first_output(names, json),
    }
}

/// The outputs of an answer in the array format: an array goes to the
/// first output; any other value gives none.
pub open spec fn array_answer_outputs(json: SpecJson, names: Seq<Seq<char>>) -> Seq<(Seq<char>, SpecJson)> {
    match json {
        SpecJson::Array(_) => first_output(names, json),
        _ => Seq::empty(),
    }
}

/// The value for the first output, when there is one.
pub fn first_output_of(names: &Vec<String>, v: Json) -> (r: Vec<(String, Json)>)
    ensures
        members_view(r@) == first_output(strings_view(names@), v@),
{
    let mut r: Vec<(String, Json)> = Vec::new();
    let ghost vv = v@;
    if names.len() > 0 {
        let ghost n0 = names@[0]@;
        r.push((names[0].clone(), v));
        proof {
            lemma_members_view(r@);
            assert(members_view(r@) =~= seq![(n0, vv)]);
        }
    } else {
        proof {
            lemma_members_view(r@);
            assert(members_view(r@) =~= Seq::<(Seq<char>, SpecJson)>::empty());
        }
    }
    r
}

/// The outputs of a parsed JSON answer (see [`json_answer_outputs`]).
pub fn json_outputs(json: &Json, names: &Vec<String>) -> (r: Vec<(String, Json)>)
    ensures
        members_view(r@) == json_answer_outputs(json@, strings_view(names@)),
{
    let ghost nv = strings_view(names@);
    match json {
        Json::Object(m) => {
            let mut r: Vec<(String, Json)> = Vec::new();
            proof {
                lemma_members_view(r@);
                assert(members_view(r@) =~= Seq::<(Seq<char>, SpecJson)>::empty());
            }
            let mut k: usize = 0;
            while k < names.len()
                invariant
                    0 <= k <= names@.len(),
                    nv == strings_view(names@),
                    *json == Json::Object(*m),
                    members_view(r@) == named_members(members_view(m@), nv, k as int),
                decreases names@.len() - k,
            {
                assert(nv[k as int] == names@[k as int]@);
                match find(m, names[k].as_str()) {
                    Some(v) => {
                        assign_entry(&mut r, names[k].clone(), v.duplicate());
                    },
                    None => {},
                }
                k = k + 1;
            }
            r
        },
        _ => first_output_of(names, json.duplicate()),
    }
}

/// The outputs of a parsed answer in the array format (see
/// [`array_answer_outputs`]).
pub fn array_outputs(json: &Json, names: &Vec<String>) -> (r: Vec<(String, Json)>)
    ensures
        members_view(r@) == array_answer_outputs(json@, strings_view(names@)),
{
    match json {
        Json::Array(_) => first_output_of(names, json.duplicate()),
        _ => {
            let r: Vec<(String, Json)> = Vec::new();
            proof {
                lemma_members_view(r@);
                assert(members_view(r@) =~= Seq::<(Seq<char>, SpecJson)>::empty());
            }
            r
        },
    }
}

/// The outputs of an answer in the text format: the trimmed answer, for
/// the first output.
pub fn text_outputs(text: &str, names: &Vec<String>) -> (r: Vec<(String, Json)>)
    ensures
        members_view(r@) == first_output(strings_view(names@), SpecJson::Str(trim(text@))),
{
    let cs = str_chars(text);
    let t = trim_chars(cs.as_slice());
    first_output_of(names, Json::Str(string_from_chars(t.as_slice())))
}

/// The outputs of an answer in the boolean format: the value read from
/// it, for the first output.
pub fn boolean_outputs(value: bool, names: &Vec<String>) -> (r: Vec<(String, Json)>)
    ensures
        members_view(r@) == first_output(strings_view(names@), SpecJson::Bool(value)),
{
    first_output_of(names, Json::Bool(value))
}

} // verus!
